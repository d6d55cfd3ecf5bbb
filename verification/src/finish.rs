//! Final reports of transfers.
use vstd::prelude::*;
use vstd::string::*;

use crate::delay::duration_millis;
use crate::error::Result;
use crate::listing::S3ZipInfo;
use crate::options::{PutRetryPolicy, S3ZipLocalUnzipOptions, SyncOptions};
use crate::put::put_retry_diagnostics;
use crate::report::{
    DryRunDiagnostics, DryRunObjectReport, LocalUnzipDiagnostics, LocalUnzipReport, LocalZipReport,
    ObjectReport, PutDiagnostics, PutRetryDiagnostics, S3PrefixUploadReport, SourceDiagnostics,
    SyncDiagnostics, SyncReport, SyncSummary, UnzipDryRunReport, UnzipDryRunSummary, UploadReport,
    ZipDryRunReport,
};
use crate::s3_uri::{object_uri, prefix_uri, S3Object, S3Prefix};
use crate::upload_entries::UploadTotals;
use crate::zip_manifest::{count_zip_file_entries, counted_paths, stored_views, StoredEntry};

verus! {

/// A retry policy as it is reported.
pub open spec fn reported_policy(policy: PutRetryPolicy) -> PutRetryDiagnostics {
    PutRetryDiagnostics {
        max_attempts: policy.max_attempts,
        base_delay_ms: duration_millis(policy.base_delay),
        max_delay_ms: duration_millis(policy.max_delay),
        slowdown_base_delay_ms: duration_millis(policy.slowdown_base_delay),
        slowdown_max_delay_ms: duration_millis(policy.slowdown_max_delay),
        jitter: policy.jitter,
    }
}

/// The report of an extraction from S3 to S3. The settings are reported along
/// with the counters, where these were collected.
pub fn sync_report(
    options: SyncOptions,
    summary: SyncSummary,
    operations: Vec<ObjectReport>,
    diagnostics: Option<(SourceDiagnostics, PutDiagnostics)>,
) -> (report: SyncReport)
    ensures
        report == (SyncReport {
            source: options.source,
            destination: options.destination,
            summary,
            diagnostics: match diagnostics {
                Some((source, put)) => Some(
                    SyncDiagnostics {
                        concurrency: options.concurrency,
                        put_concurrency: options.put_concurrency,
                        put_retry: reported_policy(options.put_retry_policy),
                        source_block_size: options.source_block_size,
                        source_block_merge_gap: options.source_block_merge_gap,
                        source_get_concurrency: options.source_get_concurrency,
                        source_window_capacity: options.source_window_capacity,
                        source,
                        put,
                    },
                ),
                None => None,
            },
            operations,
        }),
{
    let diagnostics = match diagnostics {
        Some((source, put)) => Some(
            SyncDiagnostics {
                concurrency: options.concurrency,
                put_concurrency: options.put_concurrency,
                put_retry: put_retry_diagnostics(&options.put_retry_policy),
                source_block_size: options.source_block_size,
                source_block_merge_gap: options.source_block_merge_gap,
                source_get_concurrency: options.source_get_concurrency,
                source_window_capacity: options.source_window_capacity,
                source,
                put,
            },
        ),
        None => None,
    };
    SyncReport {
        source: options.source,
        destination: options.destination,
        summary,
        diagnostics,
        operations,
    }
}

/// The report of a dry run from S3 to S3.
pub fn sync_dry_run_report(
    options: &SyncOptions,
    summary: UnzipDryRunSummary,
    operations: Vec<DryRunObjectReport>,
    source: Option<SourceDiagnostics>,
) -> (report: UnzipDryRunReport)
    ensures
        report.source_zip@ == object_uri(options.source.bucket@, options.source.key@),
        report.destination@ == prefix_uri(options.destination.bucket@, options.destination.prefix@),
        report.summary == summary,
        report.operations == operations,
        report.diagnostics == match source {
            Some(source) => Some(
                DryRunDiagnostics {
                    concurrency: options.concurrency,
                    source_block_size: options.source_block_size,
                    source_block_merge_gap: options.source_block_merge_gap,
                    source_get_concurrency: options.source_get_concurrency,
                    source_window_capacity: options.source_window_capacity,
                    source,
                },
            ),
            None => None,
        },
{
    let diagnostics = match source {
        Some(source) => Some(
            DryRunDiagnostics {
                concurrency: options.concurrency,
                source_block_size: options.source_block_size,
                source_block_merge_gap: options.source_block_merge_gap,
                source_get_concurrency: options.source_get_concurrency,
                source_window_capacity: options.source_window_capacity,
                source,
            },
        ),
        None => None,
    };
    UnzipDryRunReport {
        source_zip: options.source.uri(),
        destination: options.destination.uri(),
        summary,
        diagnostics,
        operations,
    }
}

/// The report of an extraction from S3 to a local directory.
pub fn local_unzip_report(
    options: &S3ZipLocalUnzipOptions,
    destination_dir: String,
    summary: SyncSummary,
    operations: Vec<ObjectReport>,
    source: Option<SourceDiagnostics>,
) -> (report: LocalUnzipReport)
    ensures
        report.source_zip@ == object_uri(options.source.bucket@, options.source.key@),
        report.destination_dir == destination_dir,
        report.summary == summary,
        report.operations == operations,
        report.diagnostics == match source {
            Some(source) => Some(
                LocalUnzipDiagnostics {
                    concurrency: options.concurrency,
                    source_block_size: options.source_block_size,
                    source_block_merge_gap: options.source_block_merge_gap,
                    source_get_concurrency: options.source_get_concurrency,
                    source_window_capacity: options.source_window_capacity,
                    source,
                },
            ),
            None => None,
        },
{
    let diagnostics = match source {
        Some(source) => Some(
            LocalUnzipDiagnostics {
                concurrency: options.concurrency,
                source_block_size: options.source_block_size,
                source_block_merge_gap: options.source_block_merge_gap,
                source_get_concurrency: options.source_get_concurrency,
                source_window_capacity: options.source_window_capacity,
                source,
            },
        ),
        None => None,
    };
    LocalUnzipReport {
        source_zip: options.source.uri(),
        destination_dir,
        summary,
        diagnostics,
        operations,
    }
}

/// The report of a dry run from S3 to a local directory.
pub fn local_unzip_dry_run_report(
    options: &S3ZipLocalUnzipOptions,
    destination_dir: String,
    summary: UnzipDryRunSummary,
    operations: Vec<DryRunObjectReport>,
    source: Option<SourceDiagnostics>,
) -> (report: UnzipDryRunReport)
    ensures
        report.source_zip@ == object_uri(options.source.bucket@, options.source.key@),
        report.destination == destination_dir,
        report.summary == summary,
        report.operations == operations,
        report.diagnostics == match source {
            Some(source) => Some(
                DryRunDiagnostics {
                    concurrency: options.concurrency,
                    source_block_size: options.source_block_size,
                    source_block_merge_gap: options.source_block_merge_gap,
                    source_get_concurrency: options.source_get_concurrency,
                    source_window_capacity: options.source_window_capacity,
                    source,
                },
            ),
            None => None,
        },
{
    let diagnostics = match source {
        Some(source) => Some(
            DryRunDiagnostics {
                concurrency: options.concurrency,
                source_block_size: options.source_block_size,
                source_block_merge_gap: options.source_block_merge_gap,
                source_get_concurrency: options.source_get_concurrency,
                source_window_capacity: options.source_window_capacity,
                source,
            },
        ),
        None => None,
    };
    UnzipDryRunReport {
        source_zip: options.source.uri(),
        destination: destination_dir,
        summary,
        diagnostics,
        operations,
    }
}

/// The report of a local directory zipped to S3.
pub fn upload_report(
    source_dir: String,
    destination: S3Object,
    totals: &UploadTotals,
    zip_bytes: u64,
) -> (report: UploadReport)
    ensures
        report == (UploadReport {
            source_dir,
            destination,
            files: totals.files,
            directories: totals.directories,
            uncompressed_bytes: totals.uncompressed_bytes,
            zip_bytes,
        }),
{
    UploadReport {
        source_dir,
        destination,
        files: totals.files,
        directories: totals.directories,
        uncompressed_bytes: totals.uncompressed_bytes,
        zip_bytes,
    }
}

/// The report of an S3 prefix zipped to S3.
pub fn s3_prefix_upload_report(
    source: S3Prefix,
    destination: S3Object,
    totals: &UploadTotals,
    zip_bytes: u64,
) -> (report: S3PrefixUploadReport)
    ensures
        report == (S3PrefixUploadReport {
            source,
            destination,
            files: totals.files,
            directories: totals.directories,
            entries: totals.entries,
            uncompressed_bytes: totals.uncompressed_bytes,
            zip_bytes,
        }),
{
    S3PrefixUploadReport {
        source,
        destination,
        files: totals.files,
        directories: totals.directories,
        entries: totals.entries,
        uncompressed_bytes: totals.uncompressed_bytes,
        zip_bytes,
    }
}

/// The report of a tree zipped to a local file.
pub fn local_zip_report(
    source: String,
    destination_zip: String,
    totals: &UploadTotals,
    zip_bytes: u64,
    include_catalog: bool,
) -> (report: LocalZipReport)
    ensures
        report == (LocalZipReport {
            source,
            destination_zip,
            files: totals.files,
            directories: totals.directories,
            entries: totals.entries,
            uncompressed_bytes: totals.uncompressed_bytes,
            zip_bytes,
            include_catalog,
        }),
{
    LocalZipReport {
        source,
        destination_zip,
        files: totals.files,
        directories: totals.directories,
        entries: totals.entries,
        uncompressed_bytes: totals.uncompressed_bytes,
        zip_bytes,
        include_catalog,
    }
}

/// The report of a dry run of zipping a tree.
pub fn zip_dry_run_report(
    source: String,
    destination: String,
    totals: &UploadTotals,
    include_catalog: bool,
) -> (report: ZipDryRunReport)
    ensures
        report == (ZipDryRunReport {
            source,
            destination,
            files: totals.files,
            directories: totals.directories,
            entries: totals.entries,
            uncompressed_bytes: totals.uncompressed_bytes,
            include_catalog,
        }),
{
    ZipDryRunReport {
        source,
        destination,
        files: totals.files,
        directories: totals.directories,
        entries: totals.entries,
        uncompressed_bytes: totals.uncompressed_bytes,
        include_catalog,
    }
}

/// What a ZIP object holds, given its length and central directory.
pub fn zip_info(size: u64, entries: &Vec<StoredEntry>) -> (result: Result<S3ZipInfo>)
    ensures
        match counted_paths(stored_views(entries@), entries@.len() as int) {
            Ok(paths) => result is Ok && result->Ok_0 == (S3ZipInfo {
                size,
                file_count: paths.len() as usize,
            }),
            Err(error) => result is Err && result->Err_0@ == error,
        },
{
    match count_zip_file_entries(entries) {
        Ok(file_count) => Ok(S3ZipInfo { size, file_count }),
        Err(error) => Err(error),
    }
}

} // verus!
