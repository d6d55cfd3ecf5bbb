//! Streaming ZIP upload and extraction for Amazon S3.
//!
//! The library zips local directories and S3 prefixes into local or S3 ZIP
//! files, and unzips local or S3 ZIP files into local directories or S3
//! prefixes. It holds the decisions: what an archive's central directory
//! allows, which ranges of it are read and kept, what is compared, written and
//! deleted on which condition, how writes are repeated, how content is checked
//! while it streams, and what is reported. The requests and the files
//! themselves are the caller's.
//!
//! Missing objects are written with `If-None-Match: *`, and changed objects
//! with `If-Match` against the listed ETag, so that newer destination data is
//! not overwritten. Destination objects are assumed to have single-part ETags
//! that are the MD5 digest of their body.
pub mod archive_laws;
pub mod archive_writer;
pub mod block_reader;
pub mod block_store;
pub mod buffers;
pub mod catalog;
pub mod classify;
pub mod collection_laws;
pub mod compression;
pub mod constants;
pub mod coverage;
pub mod delay;
pub mod delete_extra;
pub mod destination;
pub mod diagnostics;
pub mod digest;
pub mod directory_laws;
pub mod directory_walk;
pub mod dry_run;
pub mod dry_run_laws;
pub mod dry_run_sync;
pub mod entry_laws;
pub mod entry_reader;
pub mod error;
pub mod extract_laws;
pub mod finish;
pub mod lambda;
pub mod listing;
pub mod local_destination;
pub mod local_path;
pub mod local_round_trip;
pub mod local_sync;
pub mod local_zip;
pub mod manifest_laws;
pub mod multipart;
pub mod options;
pub mod path_probe;
pub mod put;
pub mod range_reader;
pub mod report;
pub mod s3_uri;
pub mod selection;
pub mod selection_laws;
pub mod settings_laws;
pub mod source_fetch;
pub mod source_laws;
pub mod source_plan;
pub mod spans;
pub mod sync_run;
pub mod text;
pub mod text_laws;
pub mod transfer;
pub mod upload_entries;
pub mod validate;
pub mod window_laws;
pub mod write_laws;
pub mod zip_manifest;
pub mod zip_path;

pub use constants::EMBEDDED_CATALOG_PATH;
pub use error::{Error, Result};
pub use listing::S3ZipInfo;
pub use options::{
    adaptive_source_get_concurrency, AdaptiveSourceWindow, ComparisonMode, ConflictPolicy,
    DestinationCleanup, LocalUnzipOptions, LocalZipOptions, LocalZipSyncOptions, PutRetryPolicy,
    RetryJitter, S3PrefixLocalZipOptions, S3PrefixUploadOptions, S3ZipLocalUnzipOptions,
    SyncOptions, UploadOptions, UploadProgress, ZipCompression,
};
pub use report::{
    DryRunDiagnostics, DryRunObjectReport, DryRunOperationStatus, LocalUnzipDiagnostics,
    LocalUnzipReport, LocalZipReport, LocalZipToS3Report, ObjectReport, OperationStatus,
    PutDiagnostics, PutRetryDiagnostics, S3PrefixUploadReport, SourceDiagnostics, SyncDiagnostics,
    SyncReport, SyncSummary, UnzipDryRunReport, UnzipDryRunSummary, UploadReport, ZipDryRunReport,
};
pub use s3_uri::{S3Object, S3Prefix};
pub use selection::UnzipSelection;
