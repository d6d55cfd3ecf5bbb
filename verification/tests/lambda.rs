use s3_unspool::adaptive_source_get_concurrency;
use s3_unspool::lambda::{
    adaptive_lambda_concurrency, adaptive_lambda_put_concurrency, clamp_lambda_concurrency,
    invoke_options, InvokePayload, InvokeResponse, MAX_LAMBDA_CONCURRENCY, MIN_LAMBDA_CONCURRENCY,
};
use s3_unspool::options::adaptive_source_window_capacity;
use s3_unspool::{
    ComparisonMode, ConflictPolicy, DestinationCleanup, ObjectReport, OperationStatus, S3Object,
    S3Prefix, SyncReport, SyncSummary,
};

fn payload(source: &str, destination_prefix: &str) -> InvokePayload {
    InvokePayload {
        source: source.to_string(),
        destination_prefix: destination_prefix.to_string(),
        delete_extra: false,
        diagnostics: false,
        concurrency: None,
        ignore_embedded_catalog: false,
        include_operations: false,
    }
}

fn report() -> SyncReport {
    SyncReport {
        source: S3Object::parse("s3://bucket/source.zip").unwrap(),
        destination: S3Prefix::parse("s3://bucket/dest/").unwrap(),
        summary: SyncSummary {
            zip_files: 1,
            ..SyncSummary::default()
        },
        diagnostics: None,
        operations: vec![ObjectReport {
            status: OperationStatus::SkippedUnchanged,
            key: "dest/file.txt".to_string(),
            zip_path: Some("file.txt".to_string()),
            size: Some(1),
            md5: None,
            destination_etag: None,
            message: None,
        }],
    }
}

#[test]
fn converts_payload_to_sync_options() {
    let payload = InvokePayload {
        delete_extra: true,
        diagnostics: true,
        concurrency: Some(8),
        ignore_embedded_catalog: true,
        include_operations: true,
        ..payload("s3://test-bucket/source/archive.zip", "s3://test-bucket/dest")
    };

    assert!(payload.include_operations);
    let concurrency = payload
        .concurrency
        .unwrap_or_else(|| adaptive_lambda_concurrency(256));
    let options = payload.into_options(concurrency).unwrap();

    assert_eq!(options.source.bucket, "test-bucket");
    assert_eq!(options.source.key, "source/archive.zip");
    assert_eq!(options.destination.bucket, "test-bucket");
    assert_eq!(options.destination.prefix, "dest");
    assert_eq!(options.cleanup, DestinationCleanup::DeleteExtra);
    assert!(options.collect_diagnostics);
    assert_eq!(options.concurrency, 8);
    assert_eq!(options.comparison, ComparisonMode::HashEntries);
    assert_eq!(options.conflict_policy, ConflictPolicy::ReportAndContinue);
    assert!(options.collect_operations);
    assert_eq!(options.source_window_memory_budget_mb, None);
}

#[test]
fn lambda_response_omits_operations_by_default() {
    let response = InvokeResponse::from_sync_report(report(), false);

    assert!(response.operations.is_none());
    assert_eq!(response.summary.zip_files, 1);

    let response = InvokeResponse::from_sync_report(report(), true);
    assert_eq!(response.operations.unwrap().len(), 1);
}

#[test]
fn lambda_concurrency_defaults_follow_assigned_memory() {
    assert_eq!(adaptive_lambda_concurrency(0), 4);
    assert_eq!(adaptive_lambda_concurrency(128), 4);
    assert_eq!(adaptive_lambda_concurrency(256), 6);
    assert_eq!(adaptive_lambda_concurrency(512), 8);
    assert_eq!(adaptive_lambda_concurrency(1024), 11);
    assert_eq!(adaptive_lambda_concurrency(2048), 16);
    assert_eq!(adaptive_lambda_concurrency(3008), 16);
}

#[test]
fn explicit_lambda_concurrency_is_clamped() {
    assert_eq!(clamp_lambda_concurrency(0), MIN_LAMBDA_CONCURRENCY);
    assert_eq!(clamp_lambda_concurrency(8), 8);
    assert_eq!(clamp_lambda_concurrency(64), MAX_LAMBDA_CONCURRENCY);
}

#[test]
fn lambda_put_concurrency_follows_source_and_entry_limits() {
    assert_eq!(adaptive_lambda_put_concurrency(4, 1), 2);
    assert_eq!(adaptive_lambda_put_concurrency(6, 1), 2);
    assert_eq!(adaptive_lambda_put_concurrency(8, 4), 4);
    assert_eq!(adaptive_lambda_put_concurrency(16, 8), 8);
    assert_eq!(adaptive_lambda_put_concurrency(4, 8), 4);
}

#[test]
fn adaptive_cache_accounts_for_workers_and_file_count() {
    let low_memory_concurrency = adaptive_lambda_concurrency(256);
    let small_source_get_concurrency = adaptive_source_get_concurrency(256);
    assert_eq!(small_source_get_concurrency, 1);
    assert_eq!(
        adaptive_source_window_capacity(
            256,
            423_545,
            low_memory_concurrency,
            10,
            8 * 1024 * 1024,
            small_source_get_concurrency,
        ),
        423_545
    );
    assert_eq!(
        adaptive_source_window_capacity(
            256,
            3 * 1024 * 1024 * 1024,
            low_memory_concurrency,
            49_152,
            8 * 1024 * 1024,
            small_source_get_concurrency
        ),
        16 * 1024 * 1024
    );
    assert_eq!(
        adaptive_source_window_capacity(
            256,
            3 * 1024 * 1024 * 1024,
            low_memory_concurrency,
            65_536,
            8 * 1024 * 1024,
            small_source_get_concurrency
        ),
        0
    );

    let large_memory_concurrency = adaptive_lambda_concurrency(2048);
    let large_source_get_concurrency = adaptive_source_get_concurrency(2048);
    assert_eq!(large_source_get_concurrency, 8);
    assert_eq!(
        adaptive_source_window_capacity(
            1024,
            3 * 1024 * 1024 * 1024,
            adaptive_lambda_concurrency(1024),
            49_152,
            8 * 1024 * 1024,
            adaptive_source_get_concurrency(1024)
        ),
        316 * 1024 * 1024
    );
    assert_eq!(
        adaptive_source_window_capacity(
            2048,
            3 * 1024 * 1024 * 1024,
            large_memory_concurrency,
            49_152,
            8 * 1024 * 1024,
            large_source_get_concurrency
        ),
        512 * 1024 * 1024
    );
}

#[test]
fn worker_counts_round_halves_up() {
    assert_eq!(adaptive_lambda_concurrency(161), 4);
    assert_eq!(adaptive_lambda_concurrency(162), 5);
    for memory_mb in 0..4096u64 {
        let workers = (4.0 * (memory_mb as f64 / 128.0).sqrt()).round() as usize;
        assert_eq!(
            adaptive_lambda_concurrency(memory_mb),
            workers.clamp(4, 16),
            "{memory_mb}"
        );
    }
}

#[test]
fn invocations_are_tuned_to_their_memory() {
    let options = invoke_options(payload("s3://b/a.zip", "s3://b/out"), 1024).unwrap();
    assert_eq!(options.concurrency, 11);
    assert_eq!(options.source_get_concurrency, 4);
    assert_eq!(options.put_concurrency, 4);
    assert_eq!(options.source_window_memory_budget_mb, Some(1024));
    assert_eq!(options.cleanup, DestinationCleanup::KeepExtra);
    assert_eq!(options.comparison, ComparisonMode::CatalogThenHash);

    let err = invoke_options(payload("s3://b", "s3://b/out"), 1024).unwrap_err();
    assert!(err.to_string().contains("missing object key"));
    let err = invoke_options(payload("s3://b/a.zip", "b/out"), 1024).unwrap_err();
    assert!(err.to_string().contains("missing s3:// scheme"));
}
