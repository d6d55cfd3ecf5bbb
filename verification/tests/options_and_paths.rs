use std::path::{Component, Path, PathBuf};
use std::time::Duration;

use s3_unspool::constants::{MAX_BODY_CHUNK_SIZE, MAX_PIPE_CAPACITY};
use s3_unspool::local_path::{upload_zip_path, LocalPath, PathPart};
use s3_unspool::s3_uri::{join_destination_key, normalize_etag, normalized_list_prefix};
use s3_unspool::upload_entries::{s3_prefix_zip_path, UploadEntryKind};
use s3_unspool::validate::{
    resolve_source_window_capacity, validate_local_zip_sync_options, validate_options,
    validate_s3_prefix_upload_options, validate_source_range_options, validate_upload_options,
};
use s3_unspool::zip_path::{normalize_zip_entry_path, normalize_zip_file_path};
use s3_unspool::{
    ComparisonMode, ConflictPolicy, DestinationCleanup, LocalZipSyncOptions, PutRetryPolicy,
    RetryJitter, S3Object, S3Prefix, S3PrefixUploadOptions, SyncOptions, UnzipSelection,
    UploadOptions,
};

fn sync_options(destination: &str) -> SyncOptions {
    SyncOptions::new(
        S3Object::parse("s3://bucket/source.zip").unwrap(),
        S3Prefix::parse(destination).unwrap(),
    )
}

fn local_path(path: &Path) -> LocalPath {
    let parts = path
        .components()
        .map(|component| match component {
            Component::Prefix(prefix) => {
                PathPart::Prefix(prefix.as_os_str().to_string_lossy().into_owned())
            }
            Component::RootDir => PathPart::Root,
            Component::CurDir => PathPart::Current,
            Component::ParentDir => PathPart::Parent,
            Component::Normal(name) => match name.to_str() {
                Some(name) => PathPart::Name(name.to_string()),
                None => PathPart::Foreign(name.as_encoded_bytes().to_vec()),
            },
        })
        .collect();
    LocalPath {
        shown: path.display().to_string(),
        parts,
    }
}

#[test]
fn parses_s3_object_uri() {
    let uri = S3Object::parse("s3://bucket/path/archive.zip").unwrap();
    assert_eq!(uri.bucket, "bucket");
    assert_eq!(uri.key, "path/archive.zip");
}

#[test]
fn parses_s3_object_uri_without_leading_slashes() {
    let uri = S3Object::parse("s3://bucket//path/archive.zip").unwrap();
    assert_eq!(uri.bucket, "bucket");
    assert_eq!(uri.key, "path/archive.zip");
    assert_eq!(uri.uri(), "s3://bucket/path/archive.zip");
}

#[test]
fn rejects_source_without_key() {
    let err = S3Object::parse("s3://bucket").unwrap_err();
    assert!(err.to_string().contains("missing object key"));
}

#[test]
fn rejects_s3_object_uri_with_only_repeated_slashes() {
    let err = S3Object::parse("s3://bucket//").unwrap_err();
    assert!(err.to_string().contains("missing object key"));
}

#[test]
fn unzip_selection_builder_treats_leading_markers_as_literals() {
    let selection = UnzipSelection::new()
        .including("!important.md")
        .including("#notes.md")
        .exclude("!draft.md")
        .exclude("#draft.md");

    assert_eq!(
        selection.as_patterns(),
        [
            "\\!important.md",
            "\\#notes.md",
            "!\\!draft.md",
            "!\\#draft.md"
        ]
    );
}

#[test]
fn parses_empty_destination_prefix() {
    let prefix = S3Prefix::parse("s3://bucket").unwrap();
    assert_eq!(prefix.bucket, "bucket");
    assert_eq!(prefix.prefix, "");
    assert_eq!(prefix.join_key("a/b.txt"), "a/b.txt");
}

#[test]
fn parses_destination_prefix_without_leading_slashes() {
    let prefix = S3Prefix::parse("s3://bucket//destination/").unwrap();
    assert_eq!(prefix.bucket, "bucket");
    assert_eq!(prefix.prefix, "destination/");
    assert_eq!(prefix.join_key("a/b.txt"), "destination/a/b.txt");
    assert_eq!(prefix.uri(), "s3://bucket/destination/");
}

#[test]
fn sync_options_use_embedded_catalog_by_default() {
    let options = sync_options("s3://bucket/destination/");

    assert_eq!(options.cleanup(), DestinationCleanup::KeepExtra);
    assert_eq!(options.comparison_mode(), ComparisonMode::CatalogThenHash);
    assert_eq!(options.conflict_policy(), ConflictPolicy::ReportAndContinue);
    assert!(options.collects_operations());
}

#[test]
fn sync_options_accessors_expose_tuning_configuration() {
    let retry_policy = PutRetryPolicy::default()
        .with_max_attempts(3)
        .with_base_delay(Duration::from_millis(25))
        .with_max_delay(Duration::from_secs(2))
        .with_slowdown_base_delay(Duration::from_millis(250))
        .with_slowdown_max_delay(Duration::from_secs(8))
        .with_jitter(RetryJitter::Disabled);
    let options = sync_options("s3://bucket/destination/")
        .with_concurrency(7)
        .with_put_concurrency(5)
        .with_put_retry_policy(retry_policy)
        .with_source_block_size(1024)
        .with_source_block_merge_gap(128)
        .with_source_get_concurrency(3)
        .with_source_window_capacity(4096)
        .with_source_window_memory_budget_mb(512)
        .with_body_chunk_size(2048)
        .with_pipe_capacity(8192);

    assert_eq!(options.concurrency(), 7);
    assert_eq!(options.put_concurrency(), 5);
    assert_eq!(options.put_retry_policy().max_attempts(), 3);
    assert_eq!(
        options.put_retry_policy().base_delay(),
        Duration::from_millis(25)
    );
    assert_eq!(
        options.put_retry_policy().max_delay(),
        Duration::from_secs(2)
    );
    assert_eq!(
        options.put_retry_policy().slowdown_base_delay(),
        Duration::from_millis(250)
    );
    assert_eq!(
        options.put_retry_policy().slowdown_max_delay(),
        Duration::from_secs(8)
    );
    assert_eq!(options.put_retry_policy().jitter(), RetryJitter::Disabled);
    assert_eq!(options.source_block_size(), 1024);
    assert_eq!(options.source_block_merge_gap(), 128);
    assert_eq!(options.source_get_concurrency(), 3);
    assert_eq!(options.source_window_capacity(), 4096);
    assert_eq!(options.source_window_memory_budget_mb(), Some(512));
    assert_eq!(options.body_chunk_size(), 2048);
    assert_eq!(options.pipe_capacity(), 8192);
}

#[test]
fn sync_options_reject_delete_extra_at_bucket_root() {
    let options = sync_options("s3://bucket").delete_extra_objects();

    let err = validate_options(&options).unwrap_err();

    assert!(err.to_string().contains("delete_extra_objects"));
}

#[test]
fn sync_options_reject_oversized_stream_buffers() {
    let options =
        sync_options("s3://bucket/destination/").with_body_chunk_size(MAX_BODY_CHUNK_SIZE + 1);
    assert!(validate_options(&options).is_err());

    let options = sync_options("s3://bucket/destination/")
        .with_body_chunk_size(MAX_BODY_CHUNK_SIZE)
        .with_pipe_capacity(MAX_PIPE_CAPACITY + 1);
    assert!(validate_options(&options).is_err());
}

#[test]
fn sync_options_reject_invalid_put_retry_settings() {
    let options = sync_options("s3://bucket/destination/").with_put_concurrency(0);
    assert!(validate_options(&options)
        .unwrap_err()
        .to_string()
        .contains("put_concurrency"));

    let options = sync_options("s3://bucket/destination/")
        .with_put_retry_policy(PutRetryPolicy::default().with_max_attempts(0));
    assert!(validate_options(&options)
        .unwrap_err()
        .to_string()
        .contains("max_attempts"));

    let options = sync_options("s3://bucket/destination/").with_put_retry_policy(
        PutRetryPolicy::default()
            .with_base_delay(Duration::from_secs(2))
            .with_max_delay(Duration::from_secs(1)),
    );
    assert!(validate_options(&options)
        .unwrap_err()
        .to_string()
        .contains("max_delay"));

    let options = sync_options("s3://bucket/destination/").with_put_retry_policy(
        PutRetryPolicy::default()
            .with_slowdown_base_delay(Duration::from_secs(2))
            .with_slowdown_max_delay(Duration::from_secs(1)),
    );
    assert!(validate_options(&options)
        .unwrap_err()
        .to_string()
        .contains("slowdown_max_delay"));
}

#[test]
fn sync_options_reject_source_blocks_larger_than_window() {
    let options = sync_options("s3://bucket/destination/")
        .with_source_window_capacity(8)
        .with_source_block_size(16);

    let err = validate_source_range_options(&options, 64).unwrap_err();

    assert!(err.to_string().contains("source_block_size"));
}

#[test]
fn sync_options_allow_large_source_block_for_small_source_zip() {
    let options = sync_options("s3://bucket/destination/")
        .with_source_window_capacity(8)
        .with_source_block_size(16);

    validate_source_range_options(&options, 8).unwrap();
}

#[test]
fn adaptive_source_window_resolves_after_manifest_count_is_known() {
    let mut options = sync_options("s3://bucket/destination/")
        .with_source_window_capacity(123)
        .with_source_window_memory_budget_mb(256)
        .with_concurrency(6)
        .with_source_get_concurrency(1)
        .with_source_block_size(8 * 1024 * 1024);

    resolve_source_window_capacity(&mut options, 3 * 1024 * 1024 * 1024, 49_152);

    assert_eq!(options.source_window_capacity(), 16 * 1024 * 1024);
}

#[test]
fn joins_destination_prefixes() {
    assert_eq!(join_destination_key("", "a.txt"), "a.txt");
    assert_eq!(join_destination_key("prefix", "a.txt"), "prefix/a.txt");
    assert_eq!(join_destination_key("prefix/", "a.txt"), "prefix/a.txt");
}

#[test]
fn normalizes_destination_list_prefixes() {
    assert_eq!(normalized_list_prefix(""), "");
    assert_eq!(normalized_list_prefix("prefix"), "prefix/");
    assert_eq!(normalized_list_prefix("prefix/"), "prefix/");
}

#[test]
fn normalizes_safe_zip_file_paths() {
    assert_eq!(
        normalize_zip_file_path("a/b.txt").unwrap(),
        Some("a/b.txt".to_string())
    );
    assert_eq!(normalize_zip_file_path("dir/").unwrap(), None);
    let directory = normalize_zip_entry_path("dir/").unwrap();
    assert_eq!(directory.path, "dir/");
    assert!(directory.is_directory);
}

#[test]
fn rejects_unsafe_zip_file_paths() {
    for path in [
        "/abs.txt",
        "../escape.txt",
        "a/../escape.txt",
        "a//b.txt",
        "C:/x.txt",
        "a\\b.txt",
    ] {
        assert!(normalize_zip_file_path(path).is_err(), "{path}");
    }
}

#[test]
fn s3_prefix_zip_path_preserves_directory_marker_contract() {
    let source = S3Prefix::parse("s3://bucket/foo/").unwrap();

    assert_eq!(
        s3_prefix_zip_path(&source, "foo/bar/", 0).unwrap(),
        Some(("bar/".to_string(), UploadEntryKind::Directory))
    );
    assert_eq!(
        s3_prefix_zip_path(&source, "foo/empty.txt", 0).unwrap(),
        Some(("empty.txt".to_string(), UploadEntryKind::File))
    );
    assert_eq!(s3_prefix_zip_path(&source, "foo/", 0).unwrap(), None);

    let err = s3_prefix_zip_path(&source, "foo/bar/", 1).unwrap_err();
    assert!(err.to_string().contains("zero-byte directory markers"));

    let err = s3_prefix_zip_path(&source, "foo/../escape.txt", 0).unwrap_err();
    assert!(err.to_string().contains("relative path component"));
}

#[test]
fn upload_zip_path_rejects_backslashes() {
    let err = upload_zip_path(
        &local_path(Path::new("/base")),
        &local_path(Path::new("/base/a\\b.txt")),
    )
    .unwrap_err();
    assert!(err.to_string().contains("backslashes"));
}

#[test]
fn normalizes_s3_etags() {
    assert_eq!(
        normalize_etag("\"D41D8CD98F00B204E9800998ECF8427E\""),
        Some("d41d8cd98f00b204e9800998ecf8427e".to_string())
    );
    assert_eq!(normalize_etag("\"abc-2\""), None);
    assert_eq!(normalize_etag("not-md5"), None);
}

#[test]
fn local_zip_sync_options_reject_delete_extra_at_bucket_root() {
    let mut options = LocalZipSyncOptions::new(
        PathBuf::from("source.zip"),
        S3Prefix::parse("s3://destination-bucket").unwrap(),
    );
    options.cleanup = DestinationCleanup::DeleteExtra;

    let err = validate_local_zip_sync_options(&options).unwrap_err();

    assert!(err.to_string().contains("delete_extra"));
}

#[test]
fn upload_options_reject_oversized_stream_buffers() {
    let mut options = UploadOptions::new(
        PathBuf::from("."),
        S3Object::parse("s3://bucket/archive.zip").unwrap(),
    );
    options.body_chunk_size = MAX_BODY_CHUNK_SIZE + 1;
    assert!(validate_upload_options(&options).is_err());

    options.body_chunk_size = MAX_BODY_CHUNK_SIZE;
    options.pipe_capacity = MAX_PIPE_CAPACITY + 1;
    assert!(validate_upload_options(&options).is_err());
}

#[test]
fn s3_prefix_upload_rejects_destination_inside_source_prefix() {
    let options = S3PrefixUploadOptions::new(
        S3Prefix::parse("s3://bucket/source/").unwrap(),
        S3Object::parse("s3://bucket/source/archive.zip").unwrap(),
    );

    assert!(validate_s3_prefix_upload_options(&options).is_err());
}

#[test]
fn s3_uri_errors_name_their_reason() {
    let err = S3Object::parse("http://bucket/key").unwrap_err();
    assert!(err.to_string().contains("missing s3:// scheme"));
    let err = S3Object::parse("s3:///key").unwrap_err();
    assert!(err.to_string().contains("missing bucket"));
    let err = S3Prefix::parse("s3://").unwrap_err();
    assert!(err.to_string().contains("missing bucket"));
}

#[test]
fn uris_round_trip_through_parsing() {
    let object = S3Object::parse("s3://b/k/with//slashes").unwrap();
    let again = S3Object::parse(&object.uri()).unwrap();
    assert_eq!(again.bucket, object.bucket);
    assert_eq!(again.key, object.key);
    for uri in ["s3://b", "s3://b/p", "s3://b/p/"] {
        let prefix = S3Prefix::parse(uri).unwrap();
        assert_eq!(prefix.uri(), uri);
    }
}

#[test]
fn etags_ignore_white_space_and_quotes() {
    assert_eq!(
        normalize_etag("  \"\"d41d8cd98f00b204e9800998ecf8427e\" "),
        Some("d41d8cd98f00b204e9800998ecf8427e".to_string())
    );
    assert_eq!(normalize_etag("d41d8cd98f00b204e9800998ecf8427"), None);
    assert_eq!(normalize_etag("g41d8cd98f00b204e9800998ecf8427e"), None);
}

#[test]
fn directory_paths_end_in_one_slash() {
    let directory = normalize_zip_entry_path("a/b///").unwrap();
    assert_eq!(directory.path, "a/b/");
    assert!(directory.is_directory);
    let again = normalize_zip_entry_path(&directory.path).unwrap();
    assert_eq!(again.path, directory.path);
    for (path, reason) in [
        ("", "empty path"),
        ("a\0b", "NUL byte in path"),
        ("\\a", "absolute path"),
        ("//", "absolute path"),
        ("a/./b", "relative path component"),
        ("c:/x", "Windows drive prefix"),
    ] {
        let err = normalize_zip_entry_path(path).unwrap_err();
        assert!(err.to_string().contains(reason), "{path}");
    }
}

#[test]
fn selected_extraction_cannot_delete_extra_objects() {
    let options = sync_options("s3://bucket/destination/")
        .with_selection(UnzipSelection::new().including("a.txt"))
        .delete_extra_objects();
    let err = validate_options(&options).unwrap_err();
    assert!(err.to_string().contains("delete_extra_objects"));
}

#[test]
fn zip_paths_join_the_components_below_the_source() {
    let base = local_path(Path::new("/base/dir"));
    let path = local_path(Path::new("/base/dir/a/b.txt"));
    assert_eq!(upload_zip_path(&base, &path).unwrap(), "a/b.txt");
    let err = upload_zip_path(&base, &base).unwrap_err();
    assert!(err.to_string().contains("does not name a file"));
    let err = upload_zip_path(&base, &local_path(Path::new("/base/other"))).unwrap_err();
    assert!(err
        .to_string()
        .contains("path is outside source directory: prefix not found"));
    let err = upload_zip_path(&base, &local_path(Path::new("/base/dir/../x"))).unwrap_err();
    assert!(err
        .to_string()
        .contains("path must be relative and normalized"));
    let foreign = LocalPath {
        shown: "/base/dir/?".to_string(),
        parts: vec![
            PathPart::Root,
            PathPart::Name("base".to_string()),
            PathPart::Name("dir".to_string()),
            PathPart::Foreign(vec![0xff]),
        ],
    };
    let err = upload_zip_path(&base, &foreign).unwrap_err();
    assert!(err.to_string().contains("path is not valid UTF-8"));
}

#[test]
fn prefix_objects_zip_back_under_their_extracted_paths() {
    for uri in ["s3://bucket", "s3://bucket/p", "s3://bucket/p/"] {
        let prefix = S3Prefix::parse(uri).unwrap();
        assert_eq!(
            s3_prefix_zip_path(&prefix, &prefix.join_key("a/b.txt"), 7).unwrap(),
            Some(("a/b.txt".to_string(), UploadEntryKind::File))
        );
        assert_eq!(
            s3_prefix_zip_path(&prefix, &prefix.join_key("a/"), 0).unwrap(),
            Some(("a/".to_string(), UploadEntryKind::Directory))
        );
    }
    let prefix = S3Prefix::parse("s3://bucket/p").unwrap();
    let err = s3_prefix_zip_path(&prefix, "px/a.txt", 1).unwrap_err();
    assert!(err
        .to_string()
        .contains("key is outside source prefix s3://bucket/p"));
    let err = s3_prefix_zip_path(&prefix, "p/", 1).unwrap_err();
    assert!(err.to_string().contains("source prefix root object"));
}
