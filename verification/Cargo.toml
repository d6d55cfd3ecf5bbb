[package]
name = "s3-unspool"
version = "0.1.0"
edition = "2021"
publish = false

[dependencies]
async-compression = { version = "=0.4.52", features = ["tokio", "deflate"] }
async_zip = { version = "=0.0.19", features = ["tokio", "tokio-fs", "deflate"] }
aws-config = "=1.13.0"
aws-sdk-s3 = "=1.157.0"
aws-smithy-types = { version = "=1.9.1", features = ["http-body-1-x"] }
bytes = "=1.12.1"
crc32fast = "=1.5.4"
fastrand = "=2.5.0"
futures-lite = "2"
futures-util = "0.3"
hex = "=0.4.3"
http-body = "1"
http-body-util = "0.1"
lambda_runtime = "=1.5.0"
libc = "0.2"
md-5 = "=0.11.0"
serde = { version = "1", features = ["derive"] }
serde_json = "1"
thiserror = "2"
tokio = { version = "=1.54.1", features = ["fs", "io-util", "macros", "rt-multi-thread", "sync", "time"] }
tokio-util = { version = "0.7", features = ["compat", "io"] }
tracing = "0.1"
tracing-subscriber = { version = "0.3", features = ["env-filter", "json"] }
windows-sys = { version = "*", features = ["Win32_Foundation", "Win32_Storage_FileSystem", "Win32_System_SystemServices"] }
