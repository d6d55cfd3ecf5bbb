//! Reports of transfers.
use vstd::prelude::*;
use vstd::string::*;

use crate::options::RetryJitter;
use crate::s3_uri::{S3Object, S3Prefix};
use crate::text::str_eq;
use crate::zip_manifest::{clone_opt_string, opt_view};

verus! {

/// Summary of a local directory zipped to an S3 object.
#[derive(Debug)]
pub struct UploadReport {
    /// Local directory that was uploaded.
    pub source_dir: String,
    /// Destination ZIP object.
    pub destination: S3Object,
    /// Number of regular files included in the ZIP.
    pub files: usize,
    /// Number of preserved directory entries included in the ZIP.
    pub directories: usize,
    /// Total uncompressed payload bytes.
    pub uncompressed_bytes: u64,
    /// Total uploaded ZIP object bytes.
    pub zip_bytes: u64,
}

impl Clone for UploadReport {
    fn clone(&self) -> (copy: UploadReport)
        ensures
            copy == *self,
    {
        UploadReport {
            source_dir: self.source_dir.clone(),
            destination: self.destination.clone(),
            files: self.files,
            directories: self.directories,
            uncompressed_bytes: self.uncompressed_bytes,
            zip_bytes: self.zip_bytes,
        }
    }
}

/// Summary of an S3 prefix zipped to an S3 object.
#[derive(Debug)]
pub struct S3PrefixUploadReport {
    /// Source prefix that was uploaded.
    pub source: S3Prefix,
    /// Destination ZIP object.
    pub destination: S3Object,
    /// Number of regular source objects included as ZIP file entries.
    pub files: usize,
    /// Number of zero-byte trailing-slash source objects included as ZIP directories.
    pub directories: usize,
    /// Total number of ZIP entries written, excluding the embedded catalog.
    pub entries: usize,
    /// Total uncompressed payload bytes across regular file entries.
    pub uncompressed_bytes: u64,
    /// Total uploaded ZIP object bytes.
    pub zip_bytes: u64,
}

impl Clone for S3PrefixUploadReport {
    fn clone(&self) -> (copy: S3PrefixUploadReport)
        ensures
            copy == *self,
    {
        S3PrefixUploadReport {
            source: self.source.clone(),
            destination: self.destination.clone(),
            files: self.files,
            directories: self.directories,
            entries: self.entries,
            uncompressed_bytes: self.uncompressed_bytes,
            zip_bytes: self.zip_bytes,
        }
    }
}

/// Summary of a tree zipped to a local file.
#[derive(Debug)]
pub struct LocalZipReport {
    /// Source tree that was zipped.
    pub source: String,
    /// Destination ZIP file path.
    pub destination_zip: String,
    /// Number of regular file entries included in the ZIP.
    pub files: usize,
    /// Number of preserved directory entries included in the ZIP.
    pub directories: usize,
    /// Total number of ZIP entries written, excluding the embedded catalog.
    pub entries: usize,
    /// Total uncompressed payload bytes across regular file entries.
    pub uncompressed_bytes: u64,
    /// Size of the generated ZIP file.
    pub zip_bytes: u64,
    /// Whether the embedded update catalog was written.
    pub include_catalog: bool,
}

impl Clone for LocalZipReport {
    fn clone(&self) -> (copy: LocalZipReport)
        ensures
            copy == *self,
    {
        LocalZipReport {
            source: self.source.clone(),
            destination_zip: self.destination_zip.clone(),
            files: self.files,
            directories: self.directories,
            entries: self.entries,
            uncompressed_bytes: self.uncompressed_bytes,
            zip_bytes: self.zip_bytes,
            include_catalog: self.include_catalog,
        }
    }
}

/// What zipping a tree would write.
#[derive(Debug)]
pub struct ZipDryRunReport {
    /// Source tree that would be zipped.
    pub source: String,
    /// Destination ZIP object URI or file path.
    pub destination: String,
    /// Number of regular file entries.
    pub files: usize,
    /// Number of preserved directory entries.
    pub directories: usize,
    /// Total number of ZIP entries, excluding the embedded catalog.
    pub entries: usize,
    /// Total uncompressed payload bytes across regular file entries.
    pub uncompressed_bytes: u64,
    /// Whether the embedded update catalog would be written.
    pub include_catalog: bool,
}

impl Clone for ZipDryRunReport {
    fn clone(&self) -> (copy: ZipDryRunReport)
        ensures
            copy == *self,
    {
        ZipDryRunReport {
            source: self.source.clone(),
            destination: self.destination.clone(),
            files: self.files,
            directories: self.directories,
            entries: self.entries,
            uncompressed_bytes: self.uncompressed_bytes,
            include_catalog: self.include_catalog,
        }
    }
}

/// Aggregate counters for an extract run.
#[derive(Clone, Copy, Debug, PartialEq, Eq, Structural)]
pub struct SyncSummary {
    /// Number of source ZIP entries found, excluding the embedded catalog.
    pub zip_files: usize,
    /// Number of destination objects listed before extraction.
    pub destination_objects: usize,
    /// Number of missing destination objects uploaded.
    pub uploaded_new: usize,
    /// Number of changed destination objects uploaded.
    pub uploaded_changed: usize,
    /// Number of unchanged destination objects skipped.
    pub skipped_unchanged: usize,
    /// Number of conditional write conflicts.
    pub conditional_conflicts: usize,
    /// Number of extra destination objects deleted.
    pub deleted_extra: usize,
    /// Number of per-object errors.
    pub errors: usize,
}

impl Default for SyncSummary {
    fn default() -> (summary: SyncSummary)
        ensures
            summary == empty_summary(),
    {
        SyncSummary {
            zip_files: 0,
            destination_objects: 0,
            uploaded_new: 0,
            uploaded_changed: 0,
            skipped_unchanged: 0,
            conditional_conflicts: 0,
            deleted_extra: 0,
            errors: 0,
        }
    }
}

/// The summary of a run that has done nothing yet.
pub open spec fn empty_summary() -> SyncSummary {
    SyncSummary {
        zip_files: 0,
        destination_objects: 0,
        uploaded_new: 0,
        uploaded_changed: 0,
        skipped_unchanged: 0,
        conditional_conflicts: 0,
        deleted_extra: 0,
        errors: 0,
    }
}

/// Full report of extracting an S3 ZIP into an S3 prefix.
#[derive(Debug)]
pub struct SyncReport {
    /// Source ZIP object.
    pub source: S3Object,
    /// Destination prefix.
    pub destination: S3Prefix,
    /// Aggregate extract counters.
    pub summary: SyncSummary,
    /// Optional source scheduler and destination `PutObject` diagnostics.
    pub diagnostics: Option<SyncDiagnostics>,
    /// Per-object operation records.
    pub operations: Vec<ObjectReport>,
}

impl Clone for SyncReport {
    fn clone(&self) -> (copy: SyncReport)
        ensures
            copy == (SyncReport {
                diagnostics: copy.diagnostics,
                operations: copy.operations,
                ..*self
            }),
            same_sync_diagnostics(self.diagnostics, copy.diagnostics),
            copy.operations@ == self.operations@,
    {
        let operations = self.operations.clone();
        assert(operations@ =~= self.operations@);
        SyncReport {
            source: self.source.clone(),
            destination: self.destination.clone(),
            summary: self.summary,
            diagnostics: self.diagnostics.clone(),
            operations,
        }
    }
}

impl SyncReport {
    /// Returns `true` when one or more object operations failed.
    pub fn has_errors(&self) -> (failed: bool)
        ensures
            failed == (self.summary.errors > 0),
    {
        self.summary.errors > 0
    }
}

/// Full report of extracting a local ZIP into an S3 prefix.
#[derive(Debug)]
pub struct LocalZipToS3Report {
    /// Source ZIP file path.
    pub source_zip: String,
    /// Destination prefix.
    pub destination: S3Prefix,
    /// Aggregate extract counters.
    pub summary: SyncSummary,
    /// Per-entry operation records.
    pub operations: Vec<ObjectReport>,
}

impl Clone for LocalZipToS3Report {
    fn clone(&self) -> (copy: LocalZipToS3Report)
        ensures
            copy == (LocalZipToS3Report {
                operations: copy.operations,
                ..*self
            }),
            copy.operations@ == self.operations@,
    {
        let operations = self.operations.clone();
        assert(operations@ =~= self.operations@);
        LocalZipToS3Report {
            source_zip: self.source_zip.clone(),
            destination: self.destination.clone(),
            summary: self.summary,
            operations,
        }
    }
}

impl LocalZipToS3Report {
    /// Returns `true` when one or more entry operations failed.
    pub fn has_errors(&self) -> (failed: bool)
        ensures
            failed == (self.summary.errors > 0),
    {
        self.summary.errors > 0
    }
}

/// Full report of extracting a ZIP into a local directory.
#[derive(Debug)]
pub struct LocalUnzipReport {
    /// Source ZIP object URI or local file path.
    pub source_zip: String,
    /// Destination local directory.
    pub destination_dir: String,
    /// Aggregate extract counters.
    pub summary: SyncSummary,
    /// Optional source scheduler diagnostics for S3 ZIP sources.
    pub diagnostics: Option<LocalUnzipDiagnostics>,
    /// Per-entry operation records.
    pub operations: Vec<ObjectReport>,
}

impl Clone for LocalUnzipReport {
    fn clone(&self) -> (copy: LocalUnzipReport)
        ensures
            copy == (LocalUnzipReport {
                operations: copy.operations,
                ..*self
            }),
            copy.operations@ == self.operations@,
    {
        let operations = self.operations.clone();
        assert(operations@ =~= self.operations@);
        LocalUnzipReport {
            source_zip: self.source_zip.clone(),
            destination_dir: self.destination_dir.clone(),
            summary: self.summary,
            diagnostics: self.diagnostics.clone(),
            operations,
        }
    }
}

impl LocalUnzipReport {
    /// Returns `true` when one or more entry operations failed.
    pub fn has_errors(&self) -> (failed: bool)
        ensures
            failed == (self.summary.errors > 0),
    {
        self.summary.errors > 0
    }
}

/// Whether failure counters are the same, and still valid where they were.
pub open spec fn same_put_diagnostics(first: PutDiagnostics, second: PutDiagnostics) -> bool {
    &&& second == (PutDiagnostics {
        failures_by_error_code: second.failures_by_error_code,
        ..first
    })
    &&& second.failures_by_error_code@ == first.failures_by_error_code@
    &&& first.failures_by_error_code.wf() ==> second.failures_by_error_code.wf()
}

/// Whether diagnostics, where there are any, are the same.
pub open spec fn same_sync_diagnostics(
    first: Option<SyncDiagnostics>,
    second: Option<SyncDiagnostics>,
) -> bool {
    match (first, second) {
        (Some(first), Some(second)) => second == (SyncDiagnostics { put: second.put, ..first })
            && same_put_diagnostics(first.put, second.put),
        (None, None) => true,
        _ => false,
    }
}

/// Effective extract settings and aggregate diagnostics.
#[derive(Debug)]
pub struct SyncDiagnostics {
    /// Effective entry concurrency.
    pub concurrency: usize,
    /// Effective destination `PutObject` concurrency.
    pub put_concurrency: usize,
    /// Effective destination `PutObject` retry policy.
    pub put_retry: PutRetryDiagnostics,
    /// Effective source block size in bytes.
    pub source_block_size: usize,
    /// Effective source block merge gap in bytes.
    pub source_block_merge_gap: usize,
    /// Effective source ranged `GetObject` concurrency.
    pub source_get_concurrency: usize,
    /// Effective source block window capacity in bytes.
    pub source_window_capacity: usize,
    /// Aggregate source scheduler counters.
    pub source: SourceDiagnostics,
    /// Aggregate destination `PutObject` counters.
    pub put: PutDiagnostics,
}

impl Clone for SyncDiagnostics {
    fn clone(&self) -> (copy: SyncDiagnostics)
        ensures
            copy == (SyncDiagnostics {
                put: copy.put,
                ..*self
            }),
            same_put_diagnostics(self.put, copy.put),
    {
        SyncDiagnostics {
            concurrency: self.concurrency,
            put_concurrency: self.put_concurrency,
            put_retry: self.put_retry,
            source_block_size: self.source_block_size,
            source_block_merge_gap: self.source_block_merge_gap,
            source_get_concurrency: self.source_get_concurrency,
            source_window_capacity: self.source_window_capacity,
            source: self.source,
            put: self.put.clone(),
        }
    }
}

/// Effective local unzip settings and aggregate source diagnostics.
#[derive(Debug)]
pub struct LocalUnzipDiagnostics {
    /// Effective entry concurrency.
    pub concurrency: usize,
    /// Effective source block size in bytes.
    pub source_block_size: usize,
    /// Effective source block merge gap in bytes.
    pub source_block_merge_gap: usize,
    /// Effective source ranged `GetObject` concurrency.
    pub source_get_concurrency: usize,
    /// Effective source block window capacity in bytes.
    pub source_window_capacity: usize,
    /// Aggregate source scheduler counters.
    pub source: SourceDiagnostics,
}

impl Clone for LocalUnzipDiagnostics {
    fn clone(&self) -> (copy: LocalUnzipDiagnostics)
        ensures
            copy == *self,
    {
        LocalUnzipDiagnostics {
            concurrency: self.concurrency,
            source_block_size: self.source_block_size,
            source_block_merge_gap: self.source_block_merge_gap,
            source_get_concurrency: self.source_get_concurrency,
            source_window_capacity: self.source_window_capacity,
            source: self.source,
        }
    }
}

/// Effective dry-run settings and aggregate source diagnostics.
#[derive(Debug)]
pub struct DryRunDiagnostics {
    /// Effective entry concurrency.
    pub concurrency: usize,
    /// Effective source block size in bytes.
    pub source_block_size: usize,
    /// Effective source block merge gap in bytes.
    pub source_block_merge_gap: usize,
    /// Effective source ranged `GetObject` concurrency.
    pub source_get_concurrency: usize,
    /// Effective source block window capacity in bytes.
    pub source_window_capacity: usize,
    /// Aggregate source scheduler counters.
    pub source: SourceDiagnostics,
}

impl Clone for DryRunDiagnostics {
    fn clone(&self) -> (copy: DryRunDiagnostics)
        ensures
            copy == *self,
    {
        DryRunDiagnostics {
            concurrency: self.concurrency,
            source_block_size: self.source_block_size,
            source_block_merge_gap: self.source_block_merge_gap,
            source_get_concurrency: self.source_get_concurrency,
            source_window_capacity: self.source_window_capacity,
            source: self.source,
        }
    }
}

/// A ratio of two byte counts.
#[derive(Clone, Copy, Debug, PartialEq, Eq, Structural)]
pub struct ByteRatio {
    pub numerator: u64,
    /// Greater than zero.
    pub denominator: u64,
}

/// Source scheduler and ranged `GetObject` counters.
#[derive(Clone, Copy, Debug, PartialEq, Eq, Structural)]
pub struct SourceDiagnostics {
    /// Source ZIP object size in bytes.
    pub source_zip_bytes: u64,
    /// Number of ZIP entries included in source plans.
    pub planned_entries: u64,
    /// Number of source blocks included in source plans.
    pub planned_blocks: u64,
    /// Number of source blocks fetched successfully.
    pub fetched_blocks: u64,
    /// Total ranged `GetObject` attempts, including retries.
    pub source_get_attempts: u64,
    /// Total ranged `GetObject` retries.
    pub source_get_retries: u64,
    /// Ranged `GetObject` request errors.
    pub source_get_request_errors: u64,
    /// Ranged `GetObject` response body errors.
    pub source_get_body_errors: u64,
    /// Ranged `GetObject` responses that ended before the requested bytes were read.
    pub source_get_short_body_errors: u64,
    /// Source block fetches that failed after all retry attempts.
    pub source_get_errors: u64,
    /// Sum of planned source block sizes.
    pub planned_source_bytes: u64,
    /// Sum of fetched source block sizes.
    pub fetched_source_bytes: u64,
    /// Unique source bytes covered by fetched ranges.
    pub unique_source_bytes: u64,
    /// Ratio of fetched source bytes to unique fetched source bytes.
    pub source_amplification: ByteRatio,
    /// Number of block read requests served from ready blocks.
    pub block_hits: u64,
    /// Number of block read requests that waited for scheduled data.
    pub block_waits: u64,
    /// Number of ready source blocks released from the resident window after all
    /// planned claims consumed them.
    pub block_releases: u64,
    /// Number of reader cache misses. This should remain zero for the planned
    /// source scheduler.
    pub block_misses: u64,
    /// Number of explicit replay fetches for blocks that had already been
    /// released from the resident window.
    pub block_refetches: u64,
    /// Highest number of concurrent ranged `GetObject` requests.
    pub active_gets_high_water: u64,
}

/// Effective destination `PutObject` retry settings.
#[derive(Clone, Copy, Debug, PartialEq, Eq, Structural)]
pub struct PutRetryDiagnostics {
    /// Maximum application-level `PutObject` attempts per object.
    pub max_attempts: usize,
    /// Base delay for retryable non-throttling failures, in milliseconds.
    pub base_delay_ms: u64,
    /// Maximum delay for retryable non-throttling failures, in milliseconds.
    pub max_delay_ms: u64,
    /// Base delay for throttling failures such as S3 `SlowDown`, in milliseconds.
    pub slowdown_base_delay_ms: u64,
    /// Maximum delay for throttling failures such as S3 `SlowDown`, in milliseconds.
    pub slowdown_max_delay_ms: u64,
    /// Jitter mode applied to computed retry delays.
    pub jitter: RetryJitter,
}

/// Status for a single destination object operation.
#[derive(Clone, Copy, Debug, PartialEq, Eq, Structural)]
pub enum OperationStatus {
    /// The destination key was absent and was uploaded.
    UploadedNew,
    /// The destination key existed and was overwritten.
    UploadedChanged,
    /// The destination key existed and already matched the source entry.
    SkippedUnchanged,
    /// A conditional write failed because the destination changed after listing.
    ConditionalConflict,
    /// The destination key was extra and was deleted.
    DeletedExtra,
    /// The object operation failed.
    Error,
}

/// Per-object operation result.
#[derive(Debug)]
pub struct ObjectReport {
    /// Operation status.
    pub status: OperationStatus,
    /// Destination object key or local path.
    pub key: String,
    /// Source ZIP path when the operation corresponds to a ZIP entry.
    pub zip_path: Option<String>,
    /// Source entry size in bytes when known.
    pub size: Option<u64>,
    /// Source MD5 digest when known.
    pub md5: Option<String>,
    /// Destination ETag observed during the initial listing when available.
    pub destination_etag: Option<String>,
    /// Error or conflict message when present.
    pub message: Option<String>,
}

impl Clone for ObjectReport {
    fn clone(&self) -> (copy: ObjectReport)
        ensures
            copy == *self,
    {
        ObjectReport {
            status: self.status,
            key: self.key.clone(),
            zip_path: clone_opt_string(&self.zip_path),
            size: self.size,
            md5: clone_opt_string(&self.md5),
            destination_etag: clone_opt_string(&self.destination_etag),
            message: clone_opt_string(&self.message),
        }
    }
}

pub struct ObjectReportView {
    pub status: OperationStatus,
    pub key: Seq<char>,
    pub zip_path: Option<Seq<char>>,
    pub size: Option<u64>,
    pub md5: Option<Seq<char>>,
    pub destination_etag: Option<Seq<char>>,
    pub message: Option<Seq<char>>,
}

impl View for ObjectReport {
    type V = ObjectReportView;

    open spec fn view(&self) -> ObjectReportView {
        ObjectReportView {
            status: self.status,
            key: self.key@,
            zip_path: opt_view(self.zip_path),
            size: self.size,
            md5: opt_view(self.md5),
            destination_etag: opt_view(self.destination_etag),
            message: opt_view(self.message),
        }
    }
}

/// What a dry run says of one object.
#[derive(Clone, Copy, Debug, PartialEq, Eq, Structural)]
pub enum DryRunOperationStatus {
    /// The destination is absent and would be written.
    WouldUploadNew,
    /// The destination exists and would be overwritten.
    WouldUploadChanged,
    /// The destination exists and already matches the source entry.
    SkippedUnchanged,
    /// The destination is extra and would be deleted.
    WouldDeleteExtra,
    /// The operation would fail.
    Error,
}

/// Per-object dry-run result.
#[derive(Debug)]
pub struct DryRunObjectReport {
    /// Operation status.
    pub status: DryRunOperationStatus,
    /// Destination object key or local path.
    pub key: String,
    /// Source ZIP path when the operation corresponds to a ZIP entry.
    pub zip_path: Option<String>,
    /// Source entry size in bytes when known.
    pub size: Option<u64>,
    /// Source MD5 digest when known.
    pub md5: Option<String>,
    /// Destination ETag observed during the listing when available.
    pub destination_etag: Option<String>,
    /// Error message when present.
    pub message: Option<String>,
}

impl Clone for DryRunObjectReport {
    fn clone(&self) -> (copy: DryRunObjectReport)
        ensures
            copy == *self,
    {
        DryRunObjectReport {
            status: self.status,
            key: self.key.clone(),
            zip_path: clone_opt_string(&self.zip_path),
            size: self.size,
            md5: clone_opt_string(&self.md5),
            destination_etag: clone_opt_string(&self.destination_etag),
            message: clone_opt_string(&self.message),
        }
    }
}

pub struct DryRunObjectReportView {
    pub status: DryRunOperationStatus,
    pub key: Seq<char>,
    pub zip_path: Option<Seq<char>>,
    pub size: Option<u64>,
    pub md5: Option<Seq<char>>,
    pub destination_etag: Option<Seq<char>>,
    pub message: Option<Seq<char>>,
}

impl View for DryRunObjectReport {
    type V = DryRunObjectReportView;

    open spec fn view(&self) -> DryRunObjectReportView {
        DryRunObjectReportView {
            status: self.status,
            key: self.key@,
            zip_path: opt_view(self.zip_path),
            size: self.size,
            md5: opt_view(self.md5),
            destination_etag: opt_view(self.destination_etag),
            message: opt_view(self.message),
        }
    }
}

/// Aggregate counters for an extract dry run.
#[derive(Clone, Copy, Debug, PartialEq, Eq, Structural)]
pub struct UnzipDryRunSummary {
    /// Number of source ZIP entries found, excluding the embedded catalog.
    pub zip_files: usize,
    /// Number of destination objects listed.
    pub destination_objects: usize,
    /// Number of missing destinations that would be written.
    pub would_upload_new: usize,
    /// Number of existing destinations that would be overwritten.
    pub would_upload_changed: usize,
    /// Number of unchanged destinations.
    pub skipped_unchanged: usize,
    /// Number of extra destination objects that would be deleted.
    pub would_delete_extra: usize,
    /// Number of operations that would fail.
    pub errors: usize,
}

impl Default for UnzipDryRunSummary {
    fn default() -> (summary: UnzipDryRunSummary)
        ensures
            summary == (UnzipDryRunSummary {
                zip_files: 0,
                destination_objects: 0,
                would_upload_new: 0,
                would_upload_changed: 0,
                skipped_unchanged: 0,
                would_delete_extra: 0,
                errors: 0,
            }),
    {
        UnzipDryRunSummary {
            zip_files: 0,
            destination_objects: 0,
            would_upload_new: 0,
            would_upload_changed: 0,
            skipped_unchanged: 0,
            would_delete_extra: 0,
            errors: 0,
        }
    }
}

/// What extracting a ZIP would write and delete.
#[derive(Debug)]
pub struct UnzipDryRunReport {
    /// Source ZIP object URI or local file path.
    pub source_zip: String,
    /// Destination prefix URI or local directory.
    pub destination: String,
    /// Aggregate counters.
    pub summary: UnzipDryRunSummary,
    /// Optional source scheduler diagnostics for S3 ZIP sources.
    pub diagnostics: Option<DryRunDiagnostics>,
    /// Per-object records.
    pub operations: Vec<DryRunObjectReport>,
}

impl Clone for UnzipDryRunReport {
    fn clone(&self) -> (copy: UnzipDryRunReport)
        ensures
            copy == (UnzipDryRunReport {
                operations: copy.operations,
                ..*self
            }),
            copy.operations@ == self.operations@,
    {
        let operations = self.operations.clone();
        assert(operations@ =~= self.operations@);
        UnzipDryRunReport {
            source_zip: self.source_zip.clone(),
            destination: self.destination.clone(),
            summary: self.summary,
            diagnostics: self.diagnostics.clone(),
            operations,
        }
    }
}

impl UnzipDryRunReport {
    /// Returns `true` when one or more operations would fail.
    pub fn has_errors(&self) -> (failed: bool)
        ensures
            failed == (self.summary.errors > 0),
    {
        self.summary.errors > 0
    }
}

/// The counter of a status.
pub open spec fn status_count(summary: SyncSummary, status: OperationStatus) -> usize {
    match status {
        OperationStatus::UploadedNew => summary.uploaded_new,
        OperationStatus::UploadedChanged => summary.uploaded_changed,
        OperationStatus::SkippedUnchanged => summary.skipped_unchanged,
        OperationStatus::ConditionalConflict => summary.conditional_conflicts,
        OperationStatus::DeletedExtra => summary.deleted_extra,
        OperationStatus::Error => summary.errors,
    }
}

/// A summary with one more operation of a status.
pub open spec fn counted(summary: SyncSummary, status: OperationStatus) -> SyncSummary {
    match status {
        OperationStatus::UploadedNew => SyncSummary {
            uploaded_new: (summary.uploaded_new + 1) as usize,
            ..summary
        },
        OperationStatus::UploadedChanged => SyncSummary {
            uploaded_changed: (summary.uploaded_changed + 1) as usize,
            ..summary
        },
        OperationStatus::SkippedUnchanged => SyncSummary {
            skipped_unchanged: (summary.skipped_unchanged + 1) as usize,
            ..summary
        },
        OperationStatus::ConditionalConflict => SyncSummary {
            conditional_conflicts: (summary.conditional_conflicts + 1) as usize,
            ..summary
        },
        OperationStatus::DeletedExtra => SyncSummary {
            deleted_extra: (summary.deleted_extra + 1) as usize,
            ..summary
        },
        OperationStatus::Error => SyncSummary { errors: (summary.errors + 1) as usize, ..summary },
    }
}

/// Counts an operation.
pub fn summarize_operation(summary: &mut SyncSummary, operation: &ObjectReport)
    requires
        status_count(*old(summary), operation.status) < usize::MAX,
    ensures
        *final(summary) == counted(*old(summary), operation.status),
{
    match operation.status {
        OperationStatus::UploadedNew => summary.uploaded_new += 1,
        OperationStatus::UploadedChanged => summary.uploaded_changed += 1,
        OperationStatus::SkippedUnchanged => summary.skipped_unchanged += 1,
        OperationStatus::ConditionalConflict => summary.conditional_conflicts += 1,
        OperationStatus::DeletedExtra => summary.deleted_extra += 1,
        OperationStatus::Error => summary.errors += 1,
    }
}

/// A summary with the first `n` operations counted.
pub open spec fn counted_all(
    summary: SyncSummary,
    operations: Seq<ObjectReport>,
    n: int,
) -> SyncSummary
    decreases n,
{
    if n <= 0 {
        summary
    } else {
        counted(counted_all(summary, operations, n - 1), operations[n - 1].status)
    }
}

/// Whether every counter has room for `n` more operations.
pub open spec fn has_room(summary: SyncSummary, n: int) -> bool {
    forall|status: OperationStatus| #[trigger] status_count(summary, status) + n <= usize::MAX
}

/// Counts the operations of a report.
pub fn summarize(report: &mut SyncReport)
    requires
        has_room(old(report).summary, old(report).operations@.len() as int),
    ensures
        final(report).summary == counted_all(
            old(report).summary,
            old(report).operations@,
            old(report).operations@.len() as int,
        ),
        final(report).operations@ == old(report).operations@,
        final(report).source == old(report).source,
        final(report).destination == old(report).destination,
        final(report).diagnostics == old(report).diagnostics,
{
    let ghost start = report.summary;
    let ghost operations = report.operations@;
    let mut summary: SyncSummary = report.summary;
    let mut i: usize = 0;
    while i < report.operations.len()
        invariant
            i <= report.operations.len(),
            *report == *old(report),
            operations == report.operations@,
            has_room(start, operations.len() as int),
            has_room(summary, operations.len() - i),
            summary == counted_all(start, operations, i as int),
        decreases report.operations.len() - i,
    {
        let ghost before = summary;
        assert(status_count(before, operations[i as int].status) + (operations.len() - i)
            <= usize::MAX);
        summarize_operation(&mut summary, &report.operations[i]);
        i += 1;
        assert forall|status: OperationStatus| #[trigger]
            status_count(summary, status) + (operations.len() - i) <= usize::MAX by {
            assert(status_count(before, status) + (operations.len() - i + 1) <= usize::MAX);
        }
    }
    report.summary = summary;
}

/// The number of operations counted so far.
pub open spec fn counted_total(summary: SyncSummary) -> int {
    summary.uploaded_new + summary.uploaded_changed + summary.skipped_unchanged
        + summary.conditional_conflicts + summary.deleted_extra + summary.errors
}

/// Every operation is counted under exactly one status.
pub proof fn law_summary_counts_every_operation(
    summary: SyncSummary,
    operations: Seq<ObjectReport>,
    n: int,
)
    requires
        0 <= n <= operations.len(),
        has_room(summary, n),
    ensures
        counted_total(counted_all(summary, operations, n)) == counted_total(summary) + n,
        counted_all(summary, operations, n).zip_files == summary.zip_files,
        counted_all(summary, operations, n).destination_objects == summary.destination_objects,
    decreases n,
{
    if n > 0 {
        assert forall|status: OperationStatus| #[trigger]
            status_count(summary, status) + (n - 1) <= usize::MAX by {
            assert(status_count(summary, status) + n <= usize::MAX);
        }
        law_summary_counts_every_operation(summary, operations, n - 1);
        lemma_counts_grow(summary, operations, n - 1, operations[n - 1].status);
        assert(status_count(summary, operations[n - 1].status) + n <= usize::MAX);
    }
}

proof fn lemma_counts_grow(
    summary: SyncSummary,
    operations: Seq<ObjectReport>,
    n: int,
    status: OperationStatus,
)
    requires
        0 <= n <= operations.len(),
        has_room(summary, n),
    ensures
        status_count(counted_all(summary, operations, n), status) <= status_count(summary, status)
            + n,
    decreases n,
{
    if n > 0 {
        assert forall|other: OperationStatus| #[trigger]
            status_count(summary, other) + (n - 1) <= usize::MAX by {
            assert(status_count(summary, other) + n <= usize::MAX);
        }
        lemma_counts_grow(summary, operations, n - 1, status);
        lemma_counts_grow(summary, operations, n - 1, operations[n - 1].status);
        assert(status_count(summary, operations[n - 1].status) + n <= usize::MAX);
    }
}

/// The counter of a dry-run status.
pub open spec fn dry_run_count(summary: UnzipDryRunSummary, status: DryRunOperationStatus) -> usize {
    match status {
        DryRunOperationStatus::WouldUploadNew => summary.would_upload_new,
        DryRunOperationStatus::WouldUploadChanged => summary.would_upload_changed,
        DryRunOperationStatus::SkippedUnchanged => summary.skipped_unchanged,
        DryRunOperationStatus::WouldDeleteExtra => summary.would_delete_extra,
        DryRunOperationStatus::Error => summary.errors,
    }
}

/// A dry-run summary with one more operation of a status.
pub open spec fn dry_run_counted(
    summary: UnzipDryRunSummary,
    status: DryRunOperationStatus,
) -> UnzipDryRunSummary {
    match status {
        DryRunOperationStatus::WouldUploadNew => UnzipDryRunSummary {
            would_upload_new: (summary.would_upload_new + 1) as usize,
            ..summary
        },
        DryRunOperationStatus::WouldUploadChanged => UnzipDryRunSummary {
            would_upload_changed: (summary.would_upload_changed + 1) as usize,
            ..summary
        },
        DryRunOperationStatus::SkippedUnchanged => UnzipDryRunSummary {
            skipped_unchanged: (summary.skipped_unchanged + 1) as usize,
            ..summary
        },
        DryRunOperationStatus::WouldDeleteExtra => UnzipDryRunSummary {
            would_delete_extra: (summary.would_delete_extra + 1) as usize,
            ..summary
        },
        DryRunOperationStatus::Error => UnzipDryRunSummary {
            errors: (summary.errors + 1) as usize,
            ..summary
        },
    }
}

/// Counts a dry-run operation.
pub fn summarize_dry_run_operation(summary: &mut UnzipDryRunSummary, operation: &DryRunObjectReport)
    requires
        dry_run_count(*old(summary), operation.status) < usize::MAX,
    ensures
        *final(summary) == dry_run_counted(*old(summary), operation.status),
{
    match operation.status {
        DryRunOperationStatus::WouldUploadNew => summary.would_upload_new += 1,
        DryRunOperationStatus::WouldUploadChanged => summary.would_upload_changed += 1,
        DryRunOperationStatus::SkippedUnchanged => summary.skipped_unchanged += 1,
        DryRunOperationStatus::WouldDeleteExtra => summary.would_delete_extra += 1,
        DryRunOperationStatus::Error => summary.errors += 1,
    }
}

/// How often each error code was seen.
#[derive(Debug)]
pub struct ErrorCodeCounts {
    counts: Vec<(String, u64)>,
}

/// Whether some pair has the code.
pub open spec fn has_code(counts: Seq<(String, u64)>, code: Seq<char>) -> bool {
    exists|i: int| 0 <= i < counts.len() && (#[trigger] counts[i]).0@ == code
}

/// Where the pair with the code is.
pub open spec fn code_at(counts: Seq<(String, u64)>, code: Seq<char>) -> int {
    choose|i: int| 0 <= i < counts.len() && (#[trigger] counts[i]).0@ == code
}

pub open spec fn codes_distinct(counts: Seq<(String, u64)>) -> bool {
    forall|i: int, j: int|
        0 <= i < j < counts.len() ==> (#[trigger] counts[i]).0@ != (#[trigger] counts[j]).0@
}

impl View for ErrorCodeCounts {
    type V = Map<Seq<char>, u64>;

    closed spec fn view(&self) -> Map<Seq<char>, u64> {
        Map::new(
            |code: Seq<char>| has_code(self.counts@, code),
            |code: Seq<char>| self.counts@[code_at(self.counts@, code)].1,
        )
    }
}

/// The count after `count`.
pub open spec fn next_count(count: u64) -> u64 {
    if count == u64::MAX {
        0
    } else {
        (count + 1) as u64
    }
}

impl ErrorCodeCounts {
    /// No code occurs twice.
    pub closed spec fn wf(&self) -> bool {
        codes_distinct(self.counts@)
    }

    pub fn new() -> (counts: ErrorCodeCounts)
        ensures
            counts.wf(),
            counts@ == Map::<Seq<char>, u64>::empty(),
    {
        let counts = ErrorCodeCounts { counts: Vec::new() };
        assert(counts@ =~= Map::<Seq<char>, u64>::empty());
        counts
    }

    fn find(&self, code: &str) -> (found: Option<usize>)
        requires
            self.wf(),
        ensures
            match found {
                Some(i) => i < self.counts.len() && self.counts@[i as int].0@ == code@
                    && self@.contains_key(code@) && self@[code@] == self.counts@[i as int].1,
                None => !has_code(self.counts@, code@),
            },
    {
        let mut i: usize = 0;
        while i < self.counts.len()
            invariant
                self.wf(),
                i <= self.counts.len(),
                forall|k: int| 0 <= k < i ==> (#[trigger] self.counts@[k]).0@ != code@,
            decreases self.counts.len() - i,
        {
            if str_eq(&self.counts[i].0, code) {
                proof {
                    let k = code_at(self.counts@, code@);
                    assert(self.counts@[i as int].0@ == code@);
                    assert(self.counts@[k].0@ == code@);
                    if k < i {
                        assert(self.counts@[k].0@ != self.counts@[i as int].0@);
                    }
                    if i < k {
                        assert(self.counts@[i as int].0@ != self.counts@[k].0@);
                    }
                }
                return Some(i);
            }
            i += 1;
        }
        None
    }

    /// The count of a code.
    pub fn get(&self, code: &str) -> (count: Option<u64>)
        requires
            self.wf(),
        ensures
            count == if self@.contains_key(code@) {
                Some(self@[code@])
            } else {
                None
            },
    {
        match self.find(code) {
            Some(i) => Some(self.counts[i].1),
            None => None,
        }
    }

    /// Counts one more occurrence of a code.
    pub fn record(&mut self, code: &str)
        requires
            old(self).wf(),
        ensures
            final(self).wf(),
            final(self)@ == old(self)@.insert(
                code@,
                if old(self)@.contains_key(code@) {
                    next_count(old(self)@[code@])
                } else {
                    1
                },
            ),
    {
        let ghost before = self.counts@;
        let ghost target = old(self)@.insert(
            code@,
            if old(self)@.contains_key(code@) {
                next_count(old(self)@[code@])
            } else {
                1
            },
        );
        match self.find(code) {
            Some(i) => {
                let (name, count) = (self.counts[i].0.clone(), self.counts[i].1);
                self.counts[i] = (name, count.wrapping_add(1));
                let ghost after = self.counts@;
                proof {
                    assert forall|a: int, b: int| 0 <= a < b < after.len() implies (
                    #[trigger] after[a]).0@ != (#[trigger] after[b]).0@ by {
                        assert(before[a].0@ != before[b].0@);
                    }
                    assert forall|other: Seq<char>| has_code(after, other) <==> has_code(
                        before,
                        other,
                    ) by {
                        if has_code(before, other) {
                            lemma_same_codes(before, after, other);
                        }
                        if has_code(after, other) {
                            lemma_same_codes(after, before, other);
                        }
                    }
                    assert forall|other: Seq<char>| has_code(after, other) implies #[trigger] self@[other]
                        == target[other] by {
                        let k = code_at(after, other);
                        assert(after[k].0@ == other);
                        lemma_code_at(before, other, k);
                    }
                }
            },
            None => {
                self.counts.push((code.to_owned(), 1));
                let ghost after = self.counts@;
                proof {
                    assert forall|a: int, b: int| 0 <= a < b < after.len() implies (
                    #[trigger] after[a]).0@ != (#[trigger] after[b]).0@ by {
                        if b == before.len() {
                            assert(before[a].0@ != code@);
                        } else {
                            assert(before[a].0@ != before[b].0@);
                        }
                    }
                    assert forall|other: Seq<char>| has_code(after, other) <==> has_code(
                        before,
                        other,
                    ) || other == code@ by {
                        if has_code(before, other) {
                            let k = code_at(before, other);
                            assert(after[k].0@ == other);
                        }
                        if other == code@ {
                            assert(after[before.len() as int].0@ == other);
                        }
                        if has_code(after, other) && other != code@ {
                            let k = code_at(after, other);
                            assert(before[k].0@ == other);
                        }
                    }
                    assert forall|other: Seq<char>| has_code(after, other) implies #[trigger] self@[other]
                        == target[other] by {
                        if other == code@ {
                            lemma_code_at(after, other, before.len() as int);
                        } else {
                            let k = code_at(after, other);
                            assert(after[k].0@ == other);
                            assert(before[k].0@ == other);
                            lemma_code_at(before, other, k);
                        }
                    }
                }
            },
        }
        assert(self@ =~= target);
    }

    /// The number of codes.
    pub fn len(&self) -> (len: usize)
        requires
            self.wf(),
        ensures
            self@.dom().finite(),
            len == self@.dom().len(),
    {
        proof {
            lemma_code_count(self.counts@);
            assert(self@.dom() =~= Set::new(|code: Seq<char>| has_code(self.counts@, code)));
        }
        self.counts.len()
    }

    /// The codes and their counts, in order of first occurrence.
    pub fn into_pairs(self) -> (pairs: Vec<(String, u64)>)
        requires
            self.wf(),
        ensures
            codes_distinct(pairs@),
            forall|code: Seq<char>| #[trigger]
                has_code(pairs@, code) <==> self@.contains_key(code),
            forall|i: int|
                0 <= i < pairs@.len() ==> self@[(#[trigger] pairs@[i]).0@] == pairs@[i].1,
    {
        proof {
            let counts = self.counts@;
            assert forall|i: int| 0 <= i < counts.len() implies self@[(#[trigger] counts[i]).0@]
                == counts[i].1 by {
                lemma_code_at(counts, counts[i].0@, i);
            }
        }
        self.counts
    }
}

proof fn lemma_code_at(counts: Seq<(String, u64)>, code: Seq<char>, k: int)
    requires
        codes_distinct(counts),
        0 <= k < counts.len(),
        counts[k].0@ == code,
    ensures
        has_code(counts, code),
        code_at(counts, code) == k,
{
    let at = code_at(counts, code);
    assert(counts[k].0@ == code);
    assert(counts[at].0@ == code);
    if at < k {
        assert(counts[at].0@ != counts[k].0@);
    }
    if k < at {
        assert(counts[k].0@ != counts[at].0@);
    }
}

proof fn lemma_same_codes(a: Seq<(String, u64)>, b: Seq<(String, u64)>, code: Seq<char>)
    requires
        a.len() == b.len(),
        forall|i: int| 0 <= i < a.len() ==> (#[trigger] a[i]).0@ == b[i].0@,
        has_code(a, code),
    ensures
        has_code(b, code),
{
    let k = code_at(a, code);
    assert(a[k].0@ == code);
    assert(b[k].0@ == code);
}

proof fn lemma_code_count(counts: Seq<(String, u64)>)
    requires
        codes_distinct(counts),
    ensures
        Set::new(|code: Seq<char>| has_code(counts, code)).finite(),
        Set::new(|code: Seq<char>| has_code(counts, code)).len() == counts.len(),
    decreases counts.len(),
{
    let codes = Set::new(|code: Seq<char>| has_code(counts, code));
    if counts.len() == 0 {
        assert(codes =~= Set::<Seq<char>>::empty());
    } else {
        let before = counts.drop_last();
        let last = counts.last().0@;
        assert forall|i: int, j: int| 0 <= i < j < before.len() implies (#[trigger] before[i]).0@
            != (#[trigger] before[j]).0@ by {
            assert(counts[i].0@ != counts[j].0@);
        }
        lemma_code_count(before);
        let rest = Set::new(|code: Seq<char>| has_code(before, code));
        assert forall|code: Seq<char>| codes.contains(code) <==> rest.insert(last).contains(
            code,
        ) by {
            if has_code(counts, code) && code != last {
                let k = code_at(counts, code);
                assert(before[k].0@ == code);
            }
            if has_code(before, code) {
                let k = code_at(before, code);
                assert(counts[k].0@ == code);
            }
            if code == last {
                assert(counts[counts.len() - 1].0@ == code);
            }
        }
        assert(codes =~= rest.insert(last));
        if rest.contains(last) {
            let k = code_at(before, last);
            assert(counts[k].0@ != counts[counts.len() - 1].0@);
        }
    }
}

impl Clone for ErrorCodeCounts {
    fn clone(&self) -> (copy: ErrorCodeCounts)
        ensures
            copy@ == self@,
            self.wf() ==> copy.wf(),
    {
        let mut counts: Vec<(String, u64)> = Vec::new();
        let mut i: usize = 0;
        while i < self.counts.len()
            invariant
                i <= self.counts.len(),
                counts@ == self.counts@.take(i as int),
            decreases self.counts.len() - i,
        {
            let name = self.counts[i].0.clone();
            counts.push((name, self.counts[i].1));
            i += 1;
            assert(counts@ =~= self.counts@.take(i as int));
        }
        assert(counts@ =~= self.counts@);
        ErrorCodeCounts { counts }
    }
}

/// Destination `PutObject` failure counters.
#[derive(Debug)]
pub struct PutDiagnostics {
    /// Number of failed `PutObject` attempts, including retryable attempts that
    /// later succeeded.
    pub failed_attempts: u64,
    /// Failed `PutObject` attempts grouped by AWS error code or SDK failure kind.
    pub failures_by_error_code: ErrorCodeCounts,
    /// Application-level retry attempts scheduled after failed `PutObject` attempts.
    pub retry_attempts: u64,
    /// Failed `PutObject` attempts classified as throttling.
    pub throttled_attempts: u64,
    /// Number of waits on the shared destination PUT throttle.
    pub throttle_waits: u64,
    /// Total milliseconds spent waiting on the shared destination PUT throttle.
    pub throttle_wait_millis: u64,
}

impl Clone for PutDiagnostics {
    fn clone(&self) -> (copy: PutDiagnostics)
        ensures
            same_put_diagnostics(*self, copy),
    {
        PutDiagnostics {
            failed_attempts: self.failed_attempts,
            failures_by_error_code: self.failures_by_error_code.clone(),
            retry_attempts: self.retry_attempts,
            throttled_attempts: self.throttled_attempts,
            throttle_waits: self.throttle_waits,
            throttle_wait_millis: self.throttle_wait_millis,
        }
    }
}

} // verus!
