use std::path::PathBuf;
use std::time::Duration;

use aws_smithy_types::error::metadata::ProvideErrorMetadata;
use aws_smithy_types::error::ErrorMetadata;
use crc32fast::Hasher;
use s3_unspool::classify::{
    catalog_skip_report, classify_entries, comparable_destination_md5, finish_hash_job,
    finish_upload_job, HashPhaseResult,
};
use s3_unspool::compression::Compression;
use s3_unspool::delete_extra::{delete_chunks, delete_reports, DeleteOutcome};
use s3_unspool::destination::{DestinationListing, DestinationObject};
use s3_unspool::diagnostics::PutDiagnosticsCollector;
use s3_unspool::digest::{
    empty_md5, validate_extracted_size, validate_extracted_size_not_exceeded, EntryCheck,
    ExtractDigest,
};
use s3_unspool::dry_run::{
    dry_run_delete_extra_report, dry_run_local_directory_entry, dry_run_local_file_entry,
    dry_run_report_from_object_report, dry_run_upload_job_report, finish_dry_run_comparison,
    plan_dry_run_entry, record_dry_run_operation, DryRunPlan,
};
use s3_unspool::dry_run_sync::DryRunSync;
use s3_unspool::error::{aws_error_message, IoError, IoErrorKind};
use s3_unspool::finish::{sync_dry_run_report, sync_report};
use s3_unspool::local_destination::{
    validate_local_destination_path_collisions, validate_local_destination_zip_paths,
    zip_path_components,
};
use s3_unspool::local_sync::{
    finish_directory_marker, finish_local_comparison, finish_local_put, local_put_after_error,
    local_put_after_success, marker_put_outcome, plan_local_entry, LocalPlan, LocalPutOutcome,
    MarkerOutcome,
};
use s3_unspool::local_zip::LocalZipEntry;
use s3_unspool::path_probe::{PathProbe, Probed};
use s3_unspool::put::{
    decide_put_attempt, is_conditional_put_conflict, is_put_throttle_error_code, picked_retry_delay,
    put_attempt_after_error, put_attempt_after_source_error, put_attempt_after_success,
    put_failure_after_s3_error, put_retry_delay, record_put_failure, ProducerOutcome,
    PutAttemptResult, PutCondition, PutDecision, PutResult, PutSdkError, PutThrottle, SdkErrorKind,
};
use s3_unspool::report::summarize;
use s3_unspool::sync_run::{conditional_conflict_error, should_log_issue, SyncRun};
use s3_unspool::transfer::TransferRun;
use s3_unspool::zip_manifest::ManifestEntry;
use s3_unspool::{
    DryRunOperationStatus, Error, LocalZipSyncOptions, ObjectReport, OperationStatus,
    PutRetryPolicy, RetryJitter, S3Object, S3Prefix, SyncOptions, SyncReport, SyncSummary,
    UnzipDryRunSummary, UnzipSelection,
};

const ALPHA_MD5: &str = "2c1743a391305fbf367df8e4f069f9f9";
const EMPTY_MD5: &str = "d41d8cd98f00b204e9800998ecf8427e";

fn manifest_entry(path: &str, size: u64, catalog_md5: Option<&str>) -> ManifestEntry {
    ManifestEntry {
        source_offset: 0,
        source_span_start: 0,
        source_span_end: size,
        zip_path: path.to_string(),
        key: format!("prefix/{path}"),
        size,
        compressed_size: size,
        compression: Compression::Stored,
        crc32: 0,
        catalog_md5: catalog_md5.map(str::to_string),
        is_directory: false,
    }
}

fn local_entry(path: &str, size: u64, catalog_md5: Option<&str>) -> LocalZipEntry {
    LocalZipEntry {
        index: 0,
        zip_path: path.to_string(),
        destination: format!("prefix/{path}"),
        size,
        compressed_size: size,
        compression: Compression::Stored,
        crc32: 0,
        catalog_md5: catalog_md5.map(str::to_string),
        is_directory: path.ends_with('/'),
    }
}

fn object(etag: Option<&str>, size: Option<u64>) -> DestinationObject {
    DestinationObject {
        etag: etag.map(str::to_string),
        size,
    }
}

fn listing(objects: Vec<(&str, DestinationObject)>) -> DestinationListing {
    let mut listing = DestinationListing::new();
    for (key, object) in objects {
        listing.insert(key.to_string(), object);
    }
    listing
}

fn report(status: OperationStatus, key: &str, message: Option<&str>) -> ObjectReport {
    ObjectReport {
        status,
        key: key.to_string(),
        zip_path: None,
        size: None,
        md5: None,
        destination_etag: None,
        message: message.map(str::to_string),
    }
}

fn digest(bytes: u64, md5: &str) -> ExtractDigest {
    ExtractDigest {
        bytes,
        md5: md5.to_string(),
    }
}

fn options() -> SyncOptions {
    SyncOptions::new(
        S3Object::parse("s3://src/archive.zip").unwrap(),
        S3Prefix::parse("s3://dst/prefix/").unwrap(),
    )
}

fn probed(shown: &str, probe: PathProbe) -> Probed {
    Probed {
        shown: shown.to_string(),
        probe,
    }
}

fn metadata_message(metadata: &ErrorMetadata) -> String {
    aws_error_message(metadata.code(), metadata.message(), &metadata.to_string())
}

#[test]
fn aws_error_message_prefers_code_and_message() {
    let metadata = ErrorMetadata::builder()
        .code("NoSuchKey")
        .message("The specified key does not exist.")
        .build();

    assert_eq!(
        metadata_message(&metadata),
        "NoSuchKey: The specified key does not exist."
    );
}

#[test]
fn aws_error_message_falls_back_to_display() {
    let metadata = ErrorMetadata::builder().build();

    assert_eq!(metadata_message(&metadata), "Error");
}

#[test]
fn error_messages_repeat_nothing() {
    assert_eq!(aws_error_message(Some("Code"), Some("Code"), "x"), "Code");
    assert_eq!(aws_error_message(Some("Code"), Some(""), "x"), "Code");
    assert_eq!(aws_error_message(Some("Code"), None, "x"), "Code");
    assert_eq!(aws_error_message(None, Some("text"), "x"), "text");
    assert_eq!(aws_error_message(None, Some(""), "x"), "x");
}

#[test]
fn classify_directory_markers_for_preserved_s3_placeholders() {
    let entry = ManifestEntry {
        source_span_end: 0,
        is_directory: true,
        ..manifest_entry("empty/", 0, None)
    };

    let classified = classify_entries(vec![entry.clone()], &listing(vec![]));
    assert_eq!(classified.upload_jobs.len(), 1);
    assert!(classified.reports.is_empty());

    let destination_objects = listing(vec![(
        "prefix/empty/",
        object(Some("\"d41d8cd98f00b204e9800998ecf8427e\""), Some(0)),
    )]);
    let classified = classify_entries(vec![entry.clone()], &destination_objects);
    assert!(classified.upload_jobs.is_empty());
    assert_eq!(classified.reports.len(), 1);
    assert_eq!(
        classified.reports[0].status,
        OperationStatus::SkippedUnchanged
    );

    let destination_objects =
        listing(vec![("prefix/empty/", object(Some("\"etag\""), Some(1)))]);
    let classified = classify_entries(vec![entry], &destination_objects);
    assert!(classified.upload_jobs.is_empty());
    assert_eq!(classified.reports.len(), 1);
    assert_eq!(classified.reports[0].status, OperationStatus::Error);
}

#[test]
fn dry_run_s3_classification_reports_would_statuses_and_delete_extra() {
    let new_entry = manifest_entry("new.txt", 5, None);
    let changed_entry = manifest_entry("changed.txt", 5, None);
    let skipped_entry = manifest_entry("same.txt", 5, Some(ALPHA_MD5));
    let destination_objects = listing(vec![
        ("prefix/changed.txt", object(Some("\"different\""), Some(99))),
        (
            "prefix/same.txt",
            object(Some("\"2c1743a391305fbf367df8e4f069f9f9\""), Some(5)),
        ),
        ("prefix/extra.txt", object(Some("\"extra\""), Some(1))),
    ]);

    let classified = classify_entries(
        vec![new_entry, changed_entry, skipped_entry],
        &destination_objects,
    );
    let mut summary = UnzipDryRunSummary {
        zip_files: 3,
        destination_objects: destination_objects.len(),
        ..UnzipDryRunSummary::default()
    };
    let mut operations = Vec::new();

    for operation in classified.reports {
        record_dry_run_operation(
            &mut summary,
            &mut operations,
            true,
            dry_run_report_from_object_report(operation),
        );
    }
    for job in classified.upload_jobs {
        record_dry_run_operation(
            &mut summary,
            &mut operations,
            true,
            dry_run_upload_job_report(job),
        );
    }
    for key in ["prefix/extra.txt"] {
        record_dry_run_operation(
            &mut summary,
            &mut operations,
            true,
            dry_run_delete_extra_report(key.to_string(), destination_objects.get(key)),
        );
    }

    assert_eq!(summary.would_upload_new, 1);
    assert_eq!(summary.would_upload_changed, 1);
    assert_eq!(summary.skipped_unchanged, 1);
    assert_eq!(summary.would_delete_extra, 1);
    assert!(operations.iter().any(|operation| {
        operation.status == DryRunOperationStatus::WouldDeleteExtra
            && operation.key == "prefix/extra.txt"
    }));
}

#[test]
fn local_zip_directory_marker_rejects_nonzero_existing_destination() {
    let entry = local_entry("empty/", 0, None);
    let existing = object(Some("\"etag\""), Some(1));

    let report = match plan_local_entry(&entry, Some(&existing)) {
        LocalPlan::Report(report) => report,
        plan => panic!("{plan:?}"),
    };

    assert_eq!(report.status, OperationStatus::Error);
    assert_eq!(report.destination_etag.as_deref(), Some("\"etag\""));
    assert!(matches!(
        report.message.as_deref(),
        Some(message) if message.contains("nonzero size 1")
    ));
}

#[test]
fn local_zip_directory_marker_rejects_unknown_size_existing_destination() {
    let entry = local_entry("empty/", 0, None);
    let existing = object(Some("\"etag\""), None);

    let report = match plan_local_entry(&entry, Some(&existing)) {
        LocalPlan::Report(report) => report,
        plan => panic!("{plan:?}"),
    };

    assert_eq!(report.status, OperationStatus::Error);
    assert_eq!(report.destination_etag.as_deref(), Some("\"etag\""));
    assert!(matches!(
        report.message.as_deref(),
        Some(message) if message.contains("without a size")
    ));
}

#[test]
fn producer_error_after_send_error_is_preserved() {
    let producer = ProducerOutcome::Failed(Error::InvalidZipEntry {
        path: "bad.txt".to_string(),
        reason: "CRC mismatch".to_string(),
    });

    match put_failure_after_s3_error(
        producer,
        "S3 failed".to_string(),
        Some("SlowDown".into()),
        7,
    ) {
        PutAttemptResult::Failed {
            message,
            retryable,
            error_code,
            failure_count,
        } => {
            assert!(!retryable);
            assert!(message.contains("S3 failed"));
            assert!(message.contains("bad.txt"));
            assert_eq!(error_code.as_deref(), Some("SlowDown"));
            assert_eq!(failure_count, 7);
        }
        _ => panic!("expected producer failure to be preserved"),
    }
}

#[test]
fn zero_length_crc_mismatch_fails_before_put_object() {
    let check = EntryCheck::new("empty.txt", 0, 1);
    let err = check.finish().unwrap_err();

    match put_attempt_after_source_error(&err) {
        PutAttemptResult::Failed {
            message,
            retryable,
            error_code,
            failure_count,
        } => {
            assert!(!retryable);
            assert!(message.contains("CRC"));
            assert_eq!(error_code, None);
            assert_eq!(failure_count, 0);
        }
        _ => panic!("expected zero-byte CRC mismatch to fail before PutObject"),
    }
}

#[test]
fn local_entry_crc_mismatch_leaves_pipe_short() {
    let data = (0..(64 * 1024 + 17))
        .map(|index| (index % 251) as u8)
        .collect::<Vec<_>>();
    let mut crc32 = Hasher::new();
    crc32.update(&data);
    let bad_crc32 = crc32.finalize() ^ u32::MAX;
    let mut check = EntryCheck::new("bad.txt", data.len() as u64, bad_crc32);
    let mut body = Vec::new();

    for chunk in data.chunks(64 * 1024) {
        body.extend_from_slice(&check.push_checked(chunk).unwrap());
    }
    let err = check.finish().unwrap_err();

    assert!(err.to_string().contains("CRC"));
    assert_eq!(body.len(), 64 * 1024);
    assert_eq!(body, data[..body.len()]);
    assert!(body.len() < data.len());
}

#[test]
fn local_entry_size_overflow_leaves_pipe_short() {
    let data = vec![7_u8; 64 * 1024 + 1];
    let mut crc32 = Hasher::new();
    crc32.update(&data);
    let mut check = EntryCheck::new("too-large.txt", 64 * 1024, crc32.finalize());
    let mut body = Vec::new();

    let mut chunks = data.chunks(64 * 1024);
    body.extend_from_slice(&check.push_checked(chunks.next().unwrap()).unwrap());
    let err = check.push_checked(chunks.next().unwrap()).unwrap_err();

    assert!(err.to_string().contains("central directory declared"));
    assert!(body.is_empty());
}

#[test]
fn local_destination_collisions_respect_case_insensitive_filesystems() {
    let entries = vec![("Readme".to_string(), false), ("README".to_string(), false)];
    validate_local_destination_path_collisions(&entries, false).unwrap();

    let err = validate_local_destination_path_collisions(&entries, true).unwrap_err();

    assert!(matches!(
        err,
        Error::InvalidZipEntry { reason, .. }
            if reason.contains("same local destination path")
    ));
}

#[test]
fn local_destination_parent_collisions_respect_case_insensitive_filesystems() {
    let entries = vec![
        ("Readme".to_string(), false),
        ("README/child.txt".to_string(), false),
    ];
    validate_local_destination_path_collisions(&entries, false).unwrap();

    let err = validate_local_destination_path_collisions(&entries, true).unwrap_err();

    assert!(matches!(
        err,
        Error::InvalidZipEntry { reason, .. }
            if reason.contains("same local destination path as file ZIP entry")
    ));
}

#[test]
fn local_zero_length_crc_mismatch_fails_before_put_object() {
    let entry = LocalZipEntry {
        crc32: 1,
        ..local_entry("empty.txt", 0, None)
    };
    let err = EntryCheck::new(&entry.zip_path, entry.size, entry.crc32)
        .finish()
        .unwrap_err();

    let report = finish_local_put(
        &entry,
        &PutCondition::IfNoneMatch,
        LocalPutOutcome::Failed(err.to_string()),
    );

    assert_eq!(report.status, OperationStatus::Error);
    assert!(report
        .message
        .as_deref()
        .is_some_and(|message| message.contains("CRC")));
}

#[test]
fn put_retry_delay_uses_capped_exponential_backoff() {
    let policy = PutRetryPolicy {
        jitter: RetryJitter::Disabled,
        ..PutRetryPolicy::default()
    };

    assert_eq!(
        put_retry_delay(&policy, 1, false),
        Duration::from_millis(250)
    );
    assert_eq!(
        put_retry_delay(&policy, 2, false),
        Duration::from_millis(500)
    );
    assert_eq!(
        put_retry_delay(&policy, 3, false),
        Duration::from_millis(1_000)
    );
    assert_eq!(
        put_retry_delay(&policy, 6, false),
        Duration::from_millis(5_000)
    );
    assert_eq!(
        put_retry_delay(&policy, 60, false),
        Duration::from_millis(5_000)
    );
    assert_eq!(
        put_retry_delay(&policy, 1, true),
        Duration::from_millis(1_000)
    );
    assert_eq!(
        put_retry_delay(&policy, 60, true),
        Duration::from_millis(30_000)
    );
}

#[test]
fn put_diagnostics_counts_failed_attempts_by_error_code() {
    let mut diagnostics = PutDiagnosticsCollector::default();

    diagnostics.record_failure("dispatch_failure");
    diagnostics.record_failure("dispatch_failure");
    diagnostics.record_failure("SlowDown");

    let snapshot = diagnostics.snapshot();
    assert_eq!(snapshot.failed_attempts, 3);
    assert_eq!(snapshot.retry_attempts, 0);
    assert_eq!(
        snapshot.failures_by_error_code.get("dispatch_failure"),
        Some(2)
    );
    assert_eq!(snapshot.failures_by_error_code.get("SlowDown"), Some(1));
}

#[test]
fn slowdown_errors_are_classified_as_put_throttling() {
    assert!(is_put_throttle_error_code("SlowDown"));
    assert!(is_put_throttle_error_code("ThrottlingException"));
    assert!(!is_put_throttle_error_code("PreconditionFailed"));
    assert!(!is_put_throttle_error_code("service_error"));
}

#[test]
fn put_throttle_records_shared_waits() {
    let mut diagnostics = PutDiagnosticsCollector::default();
    let mut throttle = PutThrottle::new();

    throttle.throttle(
        Duration::from_millis(100),
        Duration::from_millis(1),
        &mut diagnostics,
    );
    assert_eq!(
        throttle.wait(Duration::from_millis(100), &mut diagnostics),
        Some(Duration::from_millis(1))
    );
    assert_eq!(
        throttle.wait(Duration::from_millis(101), &mut diagnostics),
        None
    );

    let snapshot = diagnostics.snapshot();
    assert_eq!(snapshot.throttled_attempts, 1);
    assert!(snapshot.throttle_waits >= 1);
}

#[test]
fn comparable_destination_md5_uses_listed_size_as_fast_filter() {
    let entry = manifest_entry("file.txt", 10, None);
    let destination = object(Some("\"d41d8cd98f00b204e9800998ecf8427e\""), Some(11));

    assert_eq!(
        comparable_destination_md5(&destination, destination.etag.as_deref().unwrap(), &entry),
        None
    );
}

#[test]
fn comparable_destination_md5_accepts_same_size_single_part_etag() {
    let entry = manifest_entry("file.txt", 10, None);
    let destination = object(Some("\"D41D8CD98F00B204E9800998ECF8427E\""), Some(10));

    assert_eq!(
        comparable_destination_md5(&destination, destination.etag.as_deref().unwrap(), &entry),
        Some("d41d8cd98f00b204e9800998ecf8427e".to_string())
    );
}

#[test]
fn comparable_destination_md5_rejects_non_md5_etag() {
    let entry = manifest_entry("file.txt", 10, None);
    let destination = object(Some("\"abc-2\""), Some(10));

    assert_eq!(
        comparable_destination_md5(&destination, destination.etag.as_deref().unwrap(), &entry),
        None
    );
}

#[test]
fn extracted_size_must_match_manifest_entry_size() {
    let entry = manifest_entry("a.txt", 5, None);

    validate_extracted_size(&entry, 5).unwrap();
    let short = validate_extracted_size(&entry, 4).unwrap_err();
    let long = validate_extracted_size(&entry, 6).unwrap_err();

    assert!(short.to_string().contains("produced 4 bytes"));
    assert!(long.to_string().contains("produced 6 bytes"));
    validate_extracted_size_not_exceeded(&entry, 4).unwrap();
    assert!(validate_extracted_size_not_exceeded(&entry, 6).is_err());
}

#[test]
fn summarizes_report_operations() {
    let mut report = SyncReport {
        source: S3Object::parse("s3://src/archive.zip").unwrap(),
        destination: S3Prefix::parse("s3://dst/out/").unwrap(),
        summary: SyncSummary {
            zip_files: 2,
            destination_objects: 1,
            ..SyncSummary::default()
        },
        diagnostics: None,
        operations: vec![
            ObjectReport {
                status: OperationStatus::UploadedNew,
                key: "out/a".to_string(),
                zip_path: Some("a".to_string()),
                size: Some(1),
                md5: None,
                destination_etag: None,
                message: None,
            },
            ObjectReport {
                status: OperationStatus::ConditionalConflict,
                key: "out/b".to_string(),
                zip_path: Some("b".to_string()),
                size: Some(1),
                md5: None,
                destination_etag: None,
                message: Some("precondition failed".to_string()),
            },
        ],
    };

    summarize(&mut report);

    assert_eq!(report.summary.uploaded_new, 1);
    assert_eq!(report.summary.conditional_conflicts, 1);
    assert!(!report.has_errors());
}

#[test]
fn conditional_conflict_error_respects_fail_fast_option() {
    let destination = S3Prefix::parse("s3://bucket/destination/").unwrap();
    let operation = ObjectReport {
        status: OperationStatus::ConditionalConflict,
        key: "destination/file.txt".to_string(),
        zip_path: Some("file.txt".to_string()),
        size: Some(12),
        md5: None,
        destination_etag: Some("old-etag".to_string()),
        message: Some("PreconditionFailed".to_string()),
    };

    assert!(conditional_conflict_error(&destination, &operation, false).is_none());
    let err = conditional_conflict_error(&destination, &operation, true).unwrap();

    assert_eq!(
        err.to_string(),
        "conditional write failed for s3://bucket/destination/file.txt: PreconditionFailed"
    );
}

#[test]
fn catalog_md5_skips_matching_destination_without_size_check() {
    let entry = manifest_entry("file.txt", 10, Some(EMPTY_MD5));
    let destination = object(Some("\"D41D8CD98F00B204E9800998ECF8427E\""), Some(999));

    let report = catalog_skip_report(&entry, Some(&destination)).unwrap();

    assert_eq!(report.status, OperationStatus::SkippedUnchanged);
    assert_eq!(report.md5.as_deref(), entry.catalog_md5.as_deref());
}

#[test]
fn dry_run_names_the_component_in_the_way() {
    let entry = local_entry("blocked/empty/", 0, None);
    let chain = vec![probed("/out/blocked", PathProbe::Other)];

    let operation = dry_run_local_directory_entry(&entry, "/out/blocked/empty", &chain);

    assert_eq!(operation.status, DryRunOperationStatus::Error);
    assert_eq!(operation.key, "/out/blocked");
    assert_eq!(operation.zip_path.as_deref(), Some("blocked/empty/"));
    assert!(operation
        .message
        .as_deref()
        .unwrap()
        .contains("exists and is not a directory"));
}

#[test]
fn dry_run_tells_new_from_replaced() {
    let file = local_entry("nested/a.txt", 5, Some(ALPHA_MD5));
    let parents = vec![probed("/out/nested", PathProbe::Directory)];
    let replaced =
        dry_run_local_file_entry(&file, &parents, &probed("/out/nested/a.txt", PathProbe::Other));
    assert_eq!(replaced.status, DryRunOperationStatus::WouldUploadChanged);
    assert_eq!(replaced.key, "/out/nested/a.txt");
    assert_eq!(replaced.md5.as_deref(), Some(ALPHA_MD5));

    let directory = local_entry("empty/", 0, None);
    let chain = vec![probed(
        "/out/empty",
        PathProbe::NotFound("not found".to_string()),
    )];
    let created = dry_run_local_directory_entry(&directory, "/out/empty", &chain);
    assert_eq!(created.status, DryRunOperationStatus::WouldUploadNew);
    assert_eq!(created.size, Some(0));
    assert_eq!(created.md5.as_deref(), Some(EMPTY_MD5));

    let chain = vec![probed("/out/empty", PathProbe::Directory)];
    let kept = dry_run_local_directory_entry(&directory, "/out/empty", &chain);
    assert_eq!(kept.status, DryRunOperationStatus::SkippedUnchanged);
}

#[test]
fn dry_run_files_fail_on_links_and_directories() {
    let file = local_entry("a/b.txt", 5, None);
    let none = PathProbe::NotFound("not found".to_string());
    let linked = vec![probed("/out/a", PathProbe::Symlink)];
    let report = dry_run_local_file_entry(&file, &linked, &probed("/out/a/b.txt", none));
    assert_eq!(report.status, DryRunOperationStatus::Error);
    assert!(report.message.unwrap().contains("symbolic link"));
    for (probe, text) in [
        (PathProbe::Symlink, "destination file cannot be a symbolic link"),
        (PathProbe::Directory, "destination file path is a directory"),
        (
            PathProbe::Failed("denied".to_string()),
            "cannot inspect destination file: denied",
        ),
    ] {
        let report = dry_run_local_file_entry(&file, &Vec::new(), &probed("/out/a/b.txt", probe));
        assert_eq!(report.status, DryRunOperationStatus::Error);
        assert_eq!(report.message.as_deref(), Some(text));
    }
}

#[test]
fn device_names_and_reserved_characters_are_refused() {
    for path in [
        "a:b.txt", "CON", "con.txt", "a/NUL.tar.gz", "COM1", "lpt9.x", "a./b", "a /b", "a?b",
        "x\u{1}y", "conin$", "CONOUT$.log",
    ] {
        let err = validate_local_destination_zip_paths(&vec![path.to_string()]).unwrap_err();
        assert!(
            err.to_string().contains("unsafe local path component"),
            "{path}"
        );
    }
    for path in ["COM0", "COM10", "console.txt", "a.b.c", "com1x", ".hidden"] {
        validate_local_destination_zip_paths(&vec![path.to_string()]).unwrap();
    }
    assert_eq!(zip_path_components("a/b/"), vec!["a", "b"]);
}

#[test]
fn files_and_directories_cannot_share_a_path() {
    let entries = vec![("same".to_string(), false), ("same/".to_string(), true)];
    let err = validate_local_destination_path_collisions(&entries, false).unwrap_err();
    assert!(err
        .to_string()
        .contains("same local destination path as ZIP entry `same`"));
}

#[test]
fn nothing_lies_under_a_file() {
    let entries = vec![
        ("parent".to_string(), false),
        ("parent/child.txt".to_string(), false),
    ];
    let err = validate_local_destination_path_collisions(&entries, false).unwrap_err();
    assert!(err
        .to_string()
        .contains("maps under the same local destination path as file ZIP entry `parent`"));
}

#[test]
fn folded_names_follow_unicode_lowercase() {
    let entries = vec![
        ("\u{c4}rger".to_string(), false),
        ("\u{e4}rger".to_string(), false),
    ];
    validate_local_destination_path_collisions(&entries, false).unwrap();
    assert!(validate_local_destination_path_collisions(&entries, true).is_err());
}

#[test]
fn objects_without_counterpart_are_written_new() {
    let existing = listing(vec![
        ("prefix/changed", object(Some("\"abc-2\""), Some(5))),
        ("prefix/compare", object(Some("\"2c1743a391305fbf367df8e4f069f9f9\""), Some(5))),
    ]);
    let work = classify_entries(
        vec![
            manifest_entry("new", 5, None),
            manifest_entry("changed", 5, None),
            manifest_entry("compare", 5, None),
        ],
        &existing,
    );
    assert_eq!(work.upload_jobs.len(), 2);
    assert!(matches!(
        work.upload_jobs[0].condition,
        PutCondition::IfNoneMatch
    ));
    assert!(
        matches!(work.upload_jobs[1].condition, PutCondition::IfMatch(ref etag) if etag == "\"abc-2\"")
    );
    assert_eq!(work.hash_jobs.len(), 1);
    assert_eq!(work.hash_jobs[0].destination_md5, ALPHA_MD5);
}

#[test]
fn comparisons_skip_equal_content_and_write_the_rest() {
    let existing = listing(vec![(
        "prefix/a",
        object(Some("\"2c1743a391305fbf367df8e4f069f9f9\""), Some(5)),
    )]);
    let job = || {
        classify_entries(vec![manifest_entry("a", 5, None)], &existing)
            .hash_jobs
            .pop()
            .unwrap()
    };
    match finish_hash_job(job(), Ok(digest(5, ALPHA_MD5))) {
        HashPhaseResult::Operation(report) => {
            assert_eq!(report.status, OperationStatus::SkippedUnchanged)
        }
        result => panic!("{result:?}"),
    }
    let upload = match finish_hash_job(job(), Ok(digest(5, EMPTY_MD5))) {
        HashPhaseResult::Upload(upload) => upload,
        result => panic!("{result:?}"),
    };
    let written = finish_upload_job(upload, PutResult::Uploaded(digest(5, EMPTY_MD5)));
    assert_eq!(written.status, OperationStatus::UploadedChanged);
    assert_eq!(written.md5.as_deref(), Some(EMPTY_MD5));
    match finish_hash_job(job(), Err(Error::Zip("broken".to_string()))) {
        HashPhaseResult::Operation(report) => {
            assert_eq!(report.status, OperationStatus::Error);
            assert_eq!(report.message.as_deref(), Some("ZIP operation failed: broken"));
        }
        result => panic!("{result:?}"),
    }
}

#[test]
fn content_is_digested_while_it_streams() {
    let mut crc32 = Hasher::new();
    crc32.update(b"alpha");
    let mut check = EntryCheck::new("a.txt", 5, crc32.finalize());
    let (first, result) = check.push_streamed(b"al");
    assert!(first.is_empty());
    result.unwrap();
    let (second, result) = check.push_streamed(b"pha");
    assert_eq!(second, b"al");
    result.unwrap();
    let (last, digest) = check.finish().unwrap();
    assert_eq!(last, b"pha");
    assert_eq!(digest.bytes, 5);
    assert_eq!(digest.md5, ALPHA_MD5);
    assert_eq!(empty_md5(), EMPTY_MD5);
}

#[test]
fn attempts_end_on_conflicts_and_after_the_limit() {
    let mut diagnostics = PutDiagnosticsCollector::default();
    let policy = PutRetryPolicy::default();
    let throttled = || PutSdkError {
        kind: SdkErrorKind::ServiceError,
        status: Some(503),
        code: Some("SlowDown".to_string()),
        context: "slow down".to_string(),
    };
    let (code, count) = record_put_failure(&throttled(), &mut diagnostics);
    assert_eq!(code, "SlowDown");
    let attempt = put_attempt_after_error(throttled(), ProducerOutcome::Unfinished, count);
    match decide_put_attempt(&policy, 1, attempt, &mut diagnostics) {
        PutDecision::Retry { delay, throttled } => {
            assert!(throttled);
            assert!(delay <= Duration::from_millis(1_000));
        }
        decision => panic!("{decision:?}"),
    }
    let (code, count) = record_put_failure(&throttled(), &mut diagnostics);
    assert_eq!(code, "SlowDown");
    let attempt = put_attempt_after_error(throttled(), ProducerOutcome::Unfinished, count);
    assert!(matches!(
        decide_put_attempt(&policy, 6, attempt, &mut diagnostics),
        PutDecision::Done(PutResult::Failed(_))
    ));
    let conflict = PutSdkError {
        kind: SdkErrorKind::ServiceError,
        status: Some(412),
        code: None,
        context: "precondition".to_string(),
    };
    assert!(is_conditional_put_conflict(&conflict));
    let attempt = put_attempt_after_error(conflict, ProducerOutcome::Unfinished, 0);
    assert!(matches!(
        decide_put_attempt(&policy, 1, attempt, &mut diagnostics),
        PutDecision::Done(PutResult::ConditionalConflict(_))
    ));
    let attempt = put_attempt_after_success(ProducerOutcome::Finished(digest(3, EMPTY_MD5)));
    assert!(matches!(
        decide_put_attempt(&policy, 1, attempt, &mut diagnostics),
        PutDecision::Done(PutResult::Uploaded(_))
    ));
    let snapshot = diagnostics.snapshot();
    assert_eq!(snapshot.failures_by_error_code.get("SlowDown"), Some(2));
    assert_eq!(snapshot.retry_attempts, 1);
}

#[test]
fn broken_sources_are_repeated_unless_their_data_is_wrong() {
    let io = |kind| Error::Io(IoError::new(kind, "read"));
    for (error, expected) in [
        (io(IoErrorKind::UnexpectedEof), true),
        (io(IoErrorKind::InvalidData), false),
        (io(IoErrorKind::InvalidInput), false),
        (Error::Zip("crc".to_string()), false),
    ] {
        match put_attempt_after_source_error(&error) {
            PutAttemptResult::Failed { retryable, .. } => assert_eq!(retryable, expected),
            result => panic!("{result:?}"),
        }
    }
}

#[test]
fn jittered_delays_stay_below_the_backoff() {
    let policy = PutRetryPolicy::default();
    assert_eq!(
        picked_retry_delay(&policy, 3, false, 417),
        Duration::from_millis(417)
    );
    assert_eq!(
        picked_retry_delay(
            &PutRetryPolicy::default().with_jitter(RetryJitter::Disabled),
            3,
            false,
            417
        ),
        Duration::from_millis(1_000)
    );
    let mut seen = Vec::new();
    for _ in 0..200 {
        let delay = put_retry_delay(&policy, 3, false);
        assert!(delay <= Duration::from_millis(1_000));
        seen.push(delay);
    }
    seen.sort();
    seen.dedup();
    assert!(seen.len() > 1);
}

#[test]
fn fail_fast_runs_stop_at_the_first_conflict() {
    let existing = listing(vec![("prefix/extra", object(Some("\"x\""), Some(1)))]);
    let mut run = SyncRun::start(
        &options().fail_on_conflict().delete_extra_objects(),
        vec![manifest_entry("a", 5, None), manifest_entry("b", 5, None)],
        &existing,
    );
    assert_eq!(run.summary.zip_files, 2);
    assert_eq!(run.summary.destination_objects, 1);
    assert!(run.take_hash_jobs().is_empty());
    let jobs = run.take_upload_jobs();
    assert_eq!(jobs.len(), 2);
    let reports = vec![
        report(OperationStatus::UploadedNew, "prefix/a", None),
        report(OperationStatus::ConditionalConflict, "prefix/b", Some("412")),
        report(OperationStatus::UploadedNew, "prefix/c", None),
    ];
    assert!(!run.note_upload(&reports[0]));
    assert!(run.note_upload(&reports[1]));
    assert!(run.has_room_for(3));
    run.record_upload_results(reports);
    assert_eq!(run.summary.uploaded_new, 1);
    assert_eq!(run.summary.conditional_conflicts, 1);
    let err = run.take_deletions(&existing).unwrap_err();
    assert_eq!(
        err.to_string(),
        "conditional write failed for s3://dst/prefix/b: 412"
    );
}

#[test]
fn runs_delete_what_no_entry_has() {
    let existing = listing(vec![
        ("prefix/a", object(Some("\"x\""), Some(1))),
        ("prefix/extra", object(Some("\"y\""), Some(1))),
    ]);
    let mut run = SyncRun::start(
        &options().delete_extra_objects(),
        vec![manifest_entry("a", 5, None)],
        &existing,
    );
    run.take_upload_jobs();
    run.record_upload_results(vec![report(
        OperationStatus::UploadedChanged,
        "prefix/a",
        None,
    )]);
    let extra = run.take_deletions(&existing).unwrap();
    assert_eq!(extra, vec!["prefix/extra".to_string()]);
    let chunks = delete_chunks(extra);
    assert_eq!(chunks.len(), 1);
    let failed = DeleteOutcome::served(vec![(
        "prefix/extra".to_string(),
        "denied".to_string(),
    )]);
    for chunk in chunks {
        run.record_deletions(delete_reports(chunk, &failed));
    }
    assert_eq!(run.summary.errors, 1);
    let report = sync_report(options(), run.summary, run.operations, None);
    assert!(report.has_errors());
    assert_eq!(report.operations.len(), 2);
    assert_eq!(report.destination.prefix, "prefix/");
}

#[test]
fn deletions_go_in_chunks_of_a_thousand() {
    let keys: Vec<String> = (0..2_001).map(|index| index.to_string()).collect();
    let chunks = delete_chunks(keys.clone());
    assert_eq!(
        chunks.iter().map(Vec::len).collect::<Vec<_>>(),
        vec![1_000, 1_000, 1]
    );
    assert_eq!(chunks.concat(), keys);
}

#[test]
fn dry_runs_follow_the_same_course() {
    let existing = listing(vec![
        ("prefix/same", object(Some("\"2c1743a391305fbf367df8e4f069f9f9\""), Some(5))),
        ("prefix/compare", object(Some("\"2c1743a391305fbf367df8e4f069f9f9\""), Some(5))),
        ("prefix/extra", object(Some("\"y\""), Some(1))),
    ]);
    let options = options().delete_extra_objects();
    let mut run = DryRunSync::start(
        &options,
        vec![
            manifest_entry("same", 5, Some(ALPHA_MD5)),
            manifest_entry("compare", 5, None),
            manifest_entry("new", 5, None),
        ],
        &existing,
    );
    let results: Vec<HashPhaseResult> = run
        .take_hash_jobs()
        .into_iter()
        .map(|job| finish_hash_job(job, Ok(digest(5, EMPTY_MD5))))
        .collect();
    assert_eq!(results.len(), 1);
    assert!(run.has_room_for(results.len()));
    run.record_hash_results(results);
    run.record_uploads();
    let extra = run.extra_keys(&existing);
    run.record_deletions(extra, &existing);
    let report = sync_dry_run_report(&options, run.summary, run.operations, None);
    assert_eq!(report.summary.zip_files, 3);
    assert_eq!(report.summary.skipped_unchanged, 1);
    assert_eq!(report.summary.would_upload_new, 1);
    assert_eq!(report.summary.would_upload_changed, 1);
    assert_eq!(report.summary.would_delete_extra, 1);
    assert_eq!(report.operations.len(), 4);
    assert_eq!(report.source_zip, "s3://src/archive.zip");
    assert!(!report.has_errors());
}

#[test]
fn dry_runs_of_local_archives_need_an_etag() {
    let entry = local_entry("a", 5, None);
    let report = match plan_dry_run_entry(&entry, Some(&object(None, Some(5)))) {
        DryRunPlan::Report(report) => report,
        plan => panic!("{plan:?}"),
    };
    assert_eq!(report.status, DryRunOperationStatus::Error);
    assert!(report.message.unwrap().contains("without an ETag"));

    let existing = object(Some("\"2c1743a391305fbf367df8e4f069f9f9\""), Some(5));
    let (etag, md5) = match plan_dry_run_entry(&entry, Some(&existing)) {
        DryRunPlan::Compare {
            destination_etag,
            destination_md5,
        } => (destination_etag, destination_md5),
        plan => panic!("{plan:?}"),
    };
    let same = finish_dry_run_comparison(&entry, etag.clone(), &md5, Ok(digest(5, ALPHA_MD5)));
    assert_eq!(same.status, DryRunOperationStatus::SkippedUnchanged);
    let changed = finish_dry_run_comparison(&entry, etag, &md5, Ok(digest(5, EMPTY_MD5)));
    assert_eq!(changed.status, DryRunOperationStatus::WouldUploadChanged);
}

#[test]
fn local_archives_are_compared_before_they_are_written() {
    let entry = local_entry("a", 5, Some(ALPHA_MD5));
    let same = object(Some("\"2c1743a391305fbf367df8e4f069f9f9\""), Some(5));
    assert!(matches!(
        plan_local_entry(&entry, Some(&same)),
        LocalPlan::Report(ObjectReport { status: OperationStatus::SkippedUnchanged, .. })
    ));
    assert!(matches!(
        plan_local_entry(&entry, None),
        LocalPlan::Put(PutCondition::IfNoneMatch)
    ));
    let other = object(Some("\"d41d8cd98f00b204e9800998ecf8427e\""), Some(5));
    match plan_local_entry(&entry, Some(&other)) {
        LocalPlan::Compare {
            destination_etag,
            destination_md5,
        } => {
            assert!(matches!(
                finish_local_comparison(
                    &entry,
                    destination_etag,
                    &destination_md5,
                    Ok(digest(5, ALPHA_MD5))
                ),
                LocalPlan::Put(PutCondition::IfMatch(_))
            ));
        }
        plan => panic!("{plan:?}"),
    }
}

#[test]
fn local_transfers_delete_extra_objects_on_request() {
    let existing = listing(vec![
        ("prefix/a", object(None, None)),
        ("prefix/extra", object(None, None)),
    ]);
    let mut options = LocalZipSyncOptions::new(
        PathBuf::from("site.zip"),
        S3Prefix::parse("s3://dst/prefix/").unwrap(),
    );
    let entries = vec![local_entry("a", 5, None)];
    let run = TransferRun::start_to_s3(&options, &entries, &existing);
    assert!(run.extra_keys(&existing).is_empty());
    options = options.delete_extra_objects();
    let mut run = TransferRun::start_to_s3(&options, &entries, &existing);
    assert_eq!(run.extra_keys(&existing), vec!["prefix/extra".to_string()]);
    assert!(run.has_room_for(OperationStatus::Error));
    run.record(report(OperationStatus::Error, "prefix/a", Some("failed")));
    assert_eq!(run.summary.errors, 1);
    assert_eq!(run.operations.len(), 1);
}

#[test]
fn frequent_issues_are_logged_sparsely() {
    assert!(should_log_issue(20));
    assert!(!should_log_issue(21));
    assert!(should_log_issue(100));
}

#[test]
fn selections_follow_gitignore_rules() {
    let all = UnzipSelection::new();
    assert!(all.is_empty());
    assert!(all.selects("anything/at/all"));
    let selection = UnzipSelection::patterns(vec![
        "*.md".to_string(),
        "!drafts/**".to_string(),
        "/top.txt".to_string(),
        "img?.png".to_string(),
        "[a-c].bin".to_string(),
    ]);
    assert!(selection.selects("deep/down/a.md"));
    assert!(!selection.selects("drafts/a.md"));
    assert!(selection.selects("top.txt"));
    assert!(!selection.selects("deep/top.txt"));
    assert!(selection.selects("img1.png"));
    assert!(!selection.selects("img12.png"));
    assert!(selection.selects("b.bin"));
    assert!(!selection.selects("d.bin"));
}

fn put_failure(status: Option<u16>, code: Option<&str>) -> PutSdkError {
    PutSdkError {
        kind: SdkErrorKind::ServiceError,
        status,
        code: code.map(str::to_string),
        context: "refused".to_string(),
    }
}

#[test]
fn local_writes_tell_conflicts_from_failures() {
    let entry = local_entry("a", 5, Some(ALPHA_MD5));
    let condition = PutCondition::IfMatch("\"x\"".to_string());

    let outcome = local_put_after_error(put_failure(Some(412), None), None);
    let report = finish_local_put(&entry, &condition, outcome);
    assert_eq!(report.status, OperationStatus::ConditionalConflict);
    assert_eq!(report.md5.as_deref(), Some(ALPHA_MD5));
    assert_eq!(report.message.as_deref(), Some("refused"));

    let digested = Some(digest(0, EMPTY_MD5));
    let outcome = local_put_after_error(put_failure(None, Some("PreconditionFailed")), digested);
    let report = finish_local_put(&entry, &condition, outcome);
    assert_eq!(report.status, OperationStatus::ConditionalConflict);
    assert_eq!(report.md5.as_deref(), Some(EMPTY_MD5));

    let outcome = local_put_after_error(put_failure(Some(503), Some("SlowDown")), None);
    let report = finish_local_put(&entry, &condition, outcome);
    assert_eq!(report.status, OperationStatus::Error);
    assert_eq!(report.message.as_deref(), Some("refused"));
}

#[test]
fn producers_decide_on_accepted_local_writes() {
    let outcome = local_put_after_success(ProducerOutcome::Finished(digest(5, ALPHA_MD5)));
    assert!(matches!(outcome, LocalPutOutcome::Written(digest) if digest.md5 == ALPHA_MD5));
    let failed = Error::DuplicateZipPath("a".to_string());
    let text = failed.to_string();
    let outcome = local_put_after_success(ProducerOutcome::Failed(failed));
    assert!(matches!(outcome, LocalPutOutcome::Failed(message) if message == text));
    let outcome = local_put_after_success(ProducerOutcome::Crashed("panicked".to_string()));
    assert!(matches!(outcome, LocalPutOutcome::Failed(message) if message == "panicked"));
    let outcome = local_put_after_success(ProducerOutcome::Unfinished);
    assert!(matches!(
        outcome,
        LocalPutOutcome::Failed(message) if message == "entry producer was joined twice"
    ));
}

#[test]
fn directory_markers_are_written_where_there_is_nothing() {
    let entry = local_entry("dir/", 0, None);
    assert!(matches!(marker_put_outcome(Ok(())), MarkerOutcome::Written));
    let report = finish_directory_marker(&entry, marker_put_outcome(Ok(())));
    assert_eq!(report.status, OperationStatus::UploadedNew);
    assert_eq!(report.md5.as_deref(), Some(EMPTY_MD5));

    let outcome = marker_put_outcome(Err(put_failure(Some(409), None)));
    let report = finish_directory_marker(&entry, outcome);
    assert_eq!(report.status, OperationStatus::ConditionalConflict);
    assert_eq!(report.message.as_deref(), Some("refused"));

    let outcome = marker_put_outcome(Err(put_failure(Some(500), None)));
    let report = finish_directory_marker(&entry, outcome);
    assert_eq!(report.status, OperationStatus::Error);
    assert_eq!(report.md5, None);
}

#[test]
fn dry_runs_have_the_totals_of_the_transfer() {
    let existing = || {
        listing(vec![
            (
                "prefix/same",
                object(Some("\"2c1743a391305fbf367df8e4f069f9f9\""), Some(5)),
            ),
            (
                "prefix/changed",
                object(Some("\"d41d8cd98f00b204e9800998ecf8427e\""), Some(5)),
            ),
            ("prefix/broken", object(None, Some(5))),
            ("prefix/extra", object(Some("\"y\""), Some(1))),
        ])
    };
    let entries = || {
        vec![
            manifest_entry("same", 5, None),
            manifest_entry("changed", 5, None),
            manifest_entry("broken", 5, None),
            manifest_entry("new", 5, None),
        ]
    };
    let options = options().delete_extra_objects();

    let mut run = SyncRun::start(&options, entries(), &existing());
    let compared: Vec<HashPhaseResult> = run
        .take_hash_jobs()
        .into_iter()
        .map(|job| finish_hash_job(job, Ok(digest(5, ALPHA_MD5))))
        .collect();
    assert_eq!(compared.len(), 2);
    run.record_hash_results(compared);
    let reports: Vec<ObjectReport> = run
        .take_upload_jobs()
        .into_iter()
        .map(|job| finish_upload_job(job, PutResult::Uploaded(digest(5, ALPHA_MD5))))
        .collect();
    run.record_upload_results(reports);
    for chunk in delete_chunks(run.take_deletions(&existing()).unwrap()) {
        run.record_deletions(delete_reports(chunk, &DeleteOutcome::served(Vec::new())));
    }

    let mut dry_run = DryRunSync::start(&options, entries(), &existing());
    let compared: Vec<HashPhaseResult> = dry_run
        .take_hash_jobs()
        .into_iter()
        .rev()
        .map(|job| finish_hash_job(job, Ok(digest(5, ALPHA_MD5))))
        .collect();
    dry_run.record_hash_results(compared);
    dry_run.record_uploads();
    let extra = dry_run.extra_keys(&existing());
    dry_run.record_deletions(extra, &existing());

    assert_eq!(dry_run.summary.zip_files, run.summary.zip_files);
    assert_eq!(
        dry_run.summary.destination_objects,
        run.summary.destination_objects
    );
    assert_eq!(run.summary.uploaded_new, 1);
    assert_eq!(dry_run.summary.would_upload_new, 1);
    assert_eq!(run.summary.uploaded_changed, 1);
    assert_eq!(dry_run.summary.would_upload_changed, 1);
    assert_eq!(run.summary.skipped_unchanged, 1);
    assert_eq!(dry_run.summary.skipped_unchanged, 1);
    assert_eq!(run.summary.deleted_extra, 1);
    assert_eq!(dry_run.summary.would_delete_extra, 1);
    assert_eq!(run.summary.errors, 1);
    assert_eq!(dry_run.summary.errors, 1);
    assert_eq!(run.summary.conditional_conflicts, 0);
}

#[test]
fn local_dry_runs_report_as_the_transfer() {
    let entry = local_entry("a", 5, None);
    let listed = object(Some("\"2c1743a391305fbf367df8e4f069f9f9\""), Some(5));
    let written = || LocalPutOutcome::Written(digest(5, EMPTY_MD5));

    let (etag, md5) = match plan_local_entry(&entry, Some(&listed)) {
        LocalPlan::Compare { destination_etag, destination_md5 } => {
            (destination_etag, destination_md5)
        }
        plan => panic!("{plan:?}"),
    };
    let compared = finish_local_comparison(&entry, etag.clone(), &md5, Ok(digest(5, EMPTY_MD5)));
    let transfer = match compared {
        LocalPlan::Put(condition) => finish_local_put(&entry, &condition, written()),
        plan => panic!("{plan:?}"),
    };
    assert_eq!(transfer.status, OperationStatus::UploadedChanged);
    let dry_run = finish_dry_run_comparison(&entry, etag, &md5, Ok(digest(5, EMPTY_MD5)));
    assert_eq!(dry_run.status, DryRunOperationStatus::WouldUploadChanged);
    assert_eq!(dry_run.key, transfer.key);
    assert_eq!(dry_run.destination_etag, transfer.destination_etag);

    let transfer = match plan_local_entry(&entry, None) {
        LocalPlan::Put(condition) => finish_local_put(&entry, &condition, written()),
        plan => panic!("{plan:?}"),
    };
    assert_eq!(transfer.status, OperationStatus::UploadedNew);
    match plan_dry_run_entry(&entry, None) {
        DryRunPlan::Report(report) => {
            assert_eq!(report.status, DryRunOperationStatus::WouldUploadNew);
        }
        plan => panic!("{plan:?}"),
    }
}

#[test]
fn finished_runs_report_every_entry_once() {
    let existing = listing(vec![
        (
            "prefix/same",
            object(Some("\"2c1743a391305fbf367df8e4f069f9f9\""), Some(5)),
        ),
        ("prefix/broken", object(None, Some(5))),
    ]);
    let names = ["same", "broken", "new", "refused", "lost"];
    let entries = names.iter().map(|name| manifest_entry(name, 5, None)).collect();
    let mut run = SyncRun::start(&options(), entries, &existing);
    let compared: Vec<HashPhaseResult> = run
        .take_hash_jobs()
        .into_iter()
        .map(|job| finish_hash_job(job, Ok(digest(5, ALPHA_MD5))))
        .collect();
    run.record_hash_results(compared);
    let reports: Vec<ObjectReport> = run
        .take_upload_jobs()
        .into_iter()
        .map(|job| {
            let result = match job.entry.zip_path.as_str() {
                "refused" => PutResult::ConditionalConflict("412".to_string()),
                "lost" => PutResult::Failed("gone".to_string()),
                _ => PutResult::Uploaded(digest(5, ALPHA_MD5)),
            };
            finish_upload_job(job, result)
        })
        .collect();
    run.record_upload_results(reports);
    let summary = run.summary;
    assert_eq!(
        summary.uploaded_new
            + summary.uploaded_changed
            + summary.skipped_unchanged
            + summary.conditional_conflicts
            + summary.errors,
        summary.zip_files
    );
    assert_eq!(summary.zip_files, 5);
    assert_eq!(summary.errors, 2);
    let mut keys: Vec<String> = run.operations.iter().map(|report| report.key.clone()).collect();
    keys.sort();
    let mut expected: Vec<String> = names.iter().map(|name| format!("prefix/{name}")).collect();
    expected.sort();
    assert_eq!(keys, expected);
}

#[test]
fn options_and_reports_are_copied_whole() {
    let first = options()
        .with_selection(UnzipSelection::new().including("*.md"))
        .with_concurrency(3);
    let second = first.clone();
    assert_eq!(second.source, first.source);
    assert_eq!(second.destination, first.destination);
    assert_eq!(second.selection, first.selection);
    assert_eq!(second.concurrency, 3);

    let local = LocalZipSyncOptions::new(
        PathBuf::from("/tmp/site.zip"),
        S3Prefix::parse("s3://dst/prefix/").unwrap(),
    );
    assert_eq!(local.clone().source_zip, PathBuf::from("/tmp/site.zip"));

    let operations = vec![report(OperationStatus::Error, "prefix/a", Some("gone"))];
    let summary = SyncSummary { errors: 1, ..SyncSummary::default() };
    let first = sync_report(options(), summary, operations, None);
    let second = first.clone();
    assert_eq!(second.summary, first.summary);
    assert_eq!(second.operations.len(), 1);
    assert_eq!(second.operations[0].key, "prefix/a");
    assert_eq!(second.operations[0].message.as_deref(), Some("gone"));
    assert!(second.diagnostics.is_none());
}
