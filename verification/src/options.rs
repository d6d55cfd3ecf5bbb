//! Options of transfers.
use std::path::PathBuf;
use std::time::Duration;

use vstd::prelude::*;
use vstd::string::*;

use crate::compression::Compression;
use crate::constants::{
    ADAPTIVE_CACHE_BASE_OVERHEAD, ADAPTIVE_CACHE_FILE_OVERHEAD, ADAPTIVE_CACHE_LARGE_RSS_SLACK,
    ADAPTIVE_CACHE_LARGE_THRESHOLD, ADAPTIVE_CACHE_MAX_WINDOW_CAPACITY,
    ADAPTIVE_CACHE_WORKER_OVERHEAD, ADAPTIVE_SOURCE_GET_MEMORY_STEP_MB,
    ADAPTIVE_SOURCE_MAX_GET_CONCURRENCY, DEFAULT_BODY_CHUNK_SIZE, DEFAULT_CONCURRENCY,
    DEFAULT_PIPE_CAPACITY, DEFAULT_PUT_CONCURRENCY, DEFAULT_SOURCE_BLOCK_MERGE_GAP,
    DEFAULT_SOURCE_BLOCK_SIZE, DEFAULT_SOURCE_GET_CONCURRENCY, DEFAULT_SOURCE_WINDOW_CAPACITY,
    PUT_OBJECT_MAX_ATTEMPTS, PUT_OBJECT_RETRY_BASE_DELAY_MS, PUT_OBJECT_RETRY_MAX_DELAY_MS,
    PUT_OBJECT_SLOWDOWN_RETRY_BASE_DELAY_MS, PUT_OBJECT_SLOWDOWN_RETRY_MAX_DELAY_MS,
};
use crate::delay::duration_nanos;
use crate::s3_uri::{S3Object, S3Prefix};
use crate::selection::UnzipSelection;

verus! {

/// A local path. `std::path::PathBuf` is carried through and never looked into.
#[verifier::external_type_specification]
#[verifier::external_body]
pub struct ExPathBuf(std::path::PathBuf);

/// `PathBuf::clone` returns a duplicate of the path.
pub assume_specification[ <std::path::PathBuf as Clone>::clone ](path: &std::path::PathBuf) -> (copy:
    std::path::PathBuf)
    ensures
        copy == *path,
;

/// Compression method used for regular file entries when creating ZIP archives.
#[derive(Clone, Copy, Debug, PartialEq, Eq, Structural)]
pub enum ZipCompression {
    /// Use Deflate, the default ZIP compression method supported by common tools.
    Deflate,
}

impl Default for ZipCompression {
    fn default() -> (compression: ZipCompression)
        ensures
            compression == ZipCompression::Deflate,
    {
        ZipCompression::Deflate
    }
}

impl ZipCompression {
    /// The compression method of the ZIP entries.
    pub fn to_compression(self) -> (method: Compression)
        ensures
            method == Compression::Deflate,
    {
        match self {
            ZipCompression::Deflate => Compression::Deflate,
        }
    }

    /// Returns a stable lowercase name for display or configuration.
    pub fn as_str(self) -> (name: &'static str)
        ensures
            name@ == "deflate"@,
    {
        match self {
            ZipCompression::Deflate => "deflate",
        }
    }
}

/// How an unzip-to-S3 operation treats destination objects that are not in the ZIP.
#[derive(Clone, Copy, Debug, PartialEq, Eq, Structural)]
pub enum DestinationCleanup {
    /// Keep destination objects that do not correspond to selected ZIP entries.
    KeepExtra,
    /// Delete destination objects under the destination prefix that are not in the ZIP.
    DeleteExtra,
}

impl Default for DestinationCleanup {
    fn default() -> (cleanup: DestinationCleanup)
        ensures
            cleanup == DestinationCleanup::KeepExtra,
    {
        DestinationCleanup::KeepExtra
    }
}

impl DestinationCleanup {
    /// Whether extra objects are deleted.
    pub fn deletes_extra(self) -> (deletes: bool)
        ensures
            deletes == (self == DestinationCleanup::DeleteExtra),
    {
        matches!(self, DestinationCleanup::DeleteExtra)
    }
}

/// How unzip operations compare ZIP entries with existing destination objects.
#[derive(Clone, Copy, Debug, PartialEq, Eq, Structural)]
pub enum ComparisonMode {
    /// Use the embedded catalog when present, then fall back to entry hashing.
    CatalogThenHash,
    /// Ignore any embedded catalog and hash ZIP entries for comparison.
    HashEntries,
}

impl Default for ComparisonMode {
    fn default() -> (comparison: ComparisonMode)
        ensures
            comparison == ComparisonMode::CatalogThenHash,
    {
        ComparisonMode::CatalogThenHash
    }
}

impl ComparisonMode {
    /// Whether the embedded catalog is left aside.
    pub fn ignores_embedded_catalog(self) -> (ignores: bool)
        ensures
            ignores == (self == ComparisonMode::HashEntries),
    {
        matches!(self, ComparisonMode::HashEntries)
    }
}

/// How unzip-to-S3 operations handle destination conditional write conflicts.
#[derive(Clone, Copy, Debug, PartialEq, Eq, Structural)]
pub enum ConflictPolicy {
    /// Record conditional conflicts in the report and continue processing.
    ReportAndContinue,
    /// Return an error after the first conditional conflict is observed.
    FailFast,
}

impl Default for ConflictPolicy {
    fn default() -> (policy: ConflictPolicy)
        ensures
            policy == ConflictPolicy::ReportAndContinue,
    {
        ConflictPolicy::ReportAndContinue
    }
}

impl ConflictPolicy {
    /// Whether the first conflict ends the run.
    pub fn fails_fast(self) -> (fails: bool)
        ensures
            fails == (self == ConflictPolicy::FailFast),
    {
        matches!(self, ConflictPolicy::FailFast)
    }
}

/// Jitter mode used for application-level destination `PutObject` retries.
#[derive(Clone, Copy, Debug, PartialEq, Eq, Structural)]
pub enum RetryJitter {
    /// Use full jitter, selecting a random delay from zero to the computed cap.
    Full,
    /// Use deterministic exponential delays without jitter.
    Disabled,
}

/// Retry and backoff policy for destination `PutObject` attempts.
#[derive(Debug, PartialEq, Eq)]
pub struct PutRetryPolicy {
    /// Maximum number of application-level `PutObject` attempts per object.
    ///
    /// Must be greater than zero.
    pub max_attempts: usize,
    /// Base delay for retryable non-throttling failures.
    pub base_delay: Duration,
    /// Maximum delay for retryable non-throttling failures.
    ///
    /// Must be greater than or equal to the base delay.
    pub max_delay: Duration,
    /// Base delay for throttling failures such as S3 `SlowDown`.
    pub slowdown_base_delay: Duration,
    /// Maximum delay for throttling failures such as S3 `SlowDown`.
    ///
    /// Must be greater than or equal to the slowdown base delay.
    pub slowdown_max_delay: Duration,
    /// Jitter mode applied to computed retry delays.
    pub jitter: RetryJitter,
}

/// Whether a policy is the default one.
pub open spec fn is_default_retry_policy(policy: PutRetryPolicy) -> bool {
    &&& policy.max_attempts == PUT_OBJECT_MAX_ATTEMPTS
    &&& duration_nanos(policy.base_delay) == PUT_OBJECT_RETRY_BASE_DELAY_MS * 1_000_000
    &&& duration_nanos(policy.max_delay) == PUT_OBJECT_RETRY_MAX_DELAY_MS * 1_000_000
    &&& duration_nanos(policy.slowdown_base_delay) == PUT_OBJECT_SLOWDOWN_RETRY_BASE_DELAY_MS
        * 1_000_000
    &&& duration_nanos(policy.slowdown_max_delay) == PUT_OBJECT_SLOWDOWN_RETRY_MAX_DELAY_MS
        * 1_000_000
    &&& policy.jitter == RetryJitter::Full
}

impl Default for PutRetryPolicy {
    fn default() -> (policy: PutRetryPolicy)
        ensures
            is_default_retry_policy(policy),
    {
        PutRetryPolicy {
            max_attempts: PUT_OBJECT_MAX_ATTEMPTS,
            base_delay: Duration::from_millis(PUT_OBJECT_RETRY_BASE_DELAY_MS),
            max_delay: Duration::from_millis(PUT_OBJECT_RETRY_MAX_DELAY_MS),
            slowdown_base_delay: Duration::from_millis(PUT_OBJECT_SLOWDOWN_RETRY_BASE_DELAY_MS),
            slowdown_max_delay: Duration::from_millis(PUT_OBJECT_SLOWDOWN_RETRY_MAX_DELAY_MS),
            jitter: RetryJitter::Full,
        }
    }
}

impl Clone for PutRetryPolicy {
    fn clone(&self) -> (copy: PutRetryPolicy)
        ensures
            copy == *self,
    {
        PutRetryPolicy {
            max_attempts: self.max_attempts,
            base_delay: self.base_delay,
            max_delay: self.max_delay,
            slowdown_base_delay: self.slowdown_base_delay,
            slowdown_max_delay: self.slowdown_max_delay,
            jitter: self.jitter,
        }
    }
}

impl PutRetryPolicy {
    /// Returns the maximum number of application-level `PutObject` attempts.
    pub fn max_attempts(&self) -> (value: usize)
        ensures
            value == self.max_attempts,
    {
        self.max_attempts
    }

    /// Returns the base delay for retryable non-throttling failures.
    pub fn base_delay(&self) -> (value: Duration)
        ensures
            value == self.base_delay,
    {
        self.base_delay
    }

    /// Returns the maximum delay for retryable non-throttling failures.
    pub fn max_delay(&self) -> (value: Duration)
        ensures
            value == self.max_delay,
    {
        self.max_delay
    }

    /// Returns the base delay for throttling failures such as S3 `SlowDown`.
    pub fn slowdown_base_delay(&self) -> (value: Duration)
        ensures
            value == self.slowdown_base_delay,
    {
        self.slowdown_base_delay
    }

    /// Returns the maximum delay for throttling failures such as S3 `SlowDown`.
    pub fn slowdown_max_delay(&self) -> (value: Duration)
        ensures
            value == self.slowdown_max_delay,
    {
        self.slowdown_max_delay
    }

    /// Returns the jitter mode applied to computed retry delays.
    pub fn jitter(&self) -> (value: RetryJitter)
        ensures
            value == self.jitter,
    {
        self.jitter
    }

    /// Sets the maximum number of application-level `PutObject` attempts.
    pub fn with_max_attempts(self, max_attempts: usize) -> (options: PutRetryPolicy)
        ensures
            options == (PutRetryPolicy { max_attempts, ..self }),
    {
        PutRetryPolicy { max_attempts, ..self }
    }

    /// Sets the base delay for retryable non-throttling failures.
    pub fn with_base_delay(self, base_delay: Duration) -> (options: PutRetryPolicy)
        ensures
            options == (PutRetryPolicy { base_delay, ..self }),
    {
        PutRetryPolicy { base_delay, ..self }
    }

    /// Sets the maximum delay for retryable non-throttling failures.
    pub fn with_max_delay(self, max_delay: Duration) -> (options: PutRetryPolicy)
        ensures
            options == (PutRetryPolicy { max_delay, ..self }),
    {
        PutRetryPolicy { max_delay, ..self }
    }

    /// Sets the base delay for throttling failures such as S3 `SlowDown`.
    pub fn with_slowdown_base_delay(self, slowdown_base_delay: Duration) -> (options: PutRetryPolicy)
        ensures
            options == (PutRetryPolicy { slowdown_base_delay, ..self }),
    {
        PutRetryPolicy { slowdown_base_delay, ..self }
    }

    /// Sets the maximum delay for throttling failures such as S3 `SlowDown`.
    pub fn with_slowdown_max_delay(self, slowdown_max_delay: Duration) -> (options: PutRetryPolicy)
        ensures
            options == (PutRetryPolicy { slowdown_max_delay, ..self }),
    {
        PutRetryPolicy { slowdown_max_delay, ..self }
    }

    /// Sets the jitter mode applied to computed retry delays.
    pub fn with_jitter(self, jitter: RetryJitter) -> (options: PutRetryPolicy)
        ensures
            options == (PutRetryPolicy { jitter, ..self }),
    {
        PutRetryPolicy { jitter, ..self }
    }
}

/// Options for extracting a ZIP object from S3 into an S3 prefix.
#[derive(Debug)]
pub struct SyncOptions {
    /// Source ZIP object.
    pub source: S3Object,
    /// Destination prefix that receives ZIP entries.
    pub destination: S3Prefix,
    /// How destination objects outside the ZIP are handled.
    ///
    /// Deleting extra objects requires a non-empty destination prefix so a
    /// bucket root is never swept accidentally.
    pub cleanup: DestinationCleanup,
    /// ZIP entry selection. Empty selection extracts every supported entry.
    ///
    /// Selection cannot be combined with [`DestinationCleanup::DeleteExtra`].
    pub selection: UnzipSelection,
    /// Collect source scheduler diagnostics in the returned report.
    pub collect_diagnostics: bool,
    /// Comparison policy for embedded catalogs and entry hashing.
    pub comparison: ComparisonMode,
    /// Conditional write conflict handling policy.
    pub conflict_policy: ConflictPolicy,
    /// Collect one operation record per processed object in the returned report.
    pub collect_operations: bool,
    /// Maximum number of ZIP entries processed concurrently.
    ///
    /// Must be greater than zero.
    pub concurrency: usize,
    /// Maximum number of destination `PutObject` requests in flight.
    ///
    /// Must be greater than zero.
    pub put_concurrency: usize,
    /// Retry and backoff policy for destination `PutObject` attempts.
    pub put_retry_policy: PutRetryPolicy,
    /// Maximum size for planned source ZIP blocks.
    ///
    /// Must be greater than zero.
    pub source_block_size: usize,
    /// Maximum gap that can be read while coalescing adjacent source spans.
    pub source_block_merge_gap: usize,
    /// Maximum number of ranged source `GetObject` requests in flight.
    ///
    /// Must be greater than zero.
    pub source_get_concurrency: usize,
    /// Maximum bytes held by the planned source block window.
    ///
    /// When nonzero, this must be large enough to hold the effective source
    /// block size after clamping that block size to the source ZIP size.
    pub source_window_capacity: usize,
    /// Available memory budget, in MiB, used to derive the source block window.
    ///
    /// When set, extraction computes the window capacity after the ZIP manifest
    /// is loaded, using the real source ZIP size and file count.
    pub source_window_memory_budget_mb: Option<u64>,
    /// Buffer size used when streaming entry bodies to S3.
    ///
    /// Must be greater than zero and no larger than 16 MiB.
    pub body_chunk_size: usize,
    /// Capacity of the in-memory pipe between decompression and S3 upload.
    ///
    /// Must be greater than zero and no larger than 64 MiB.
    pub pipe_capacity: usize,
}

impl Clone for SyncOptions {
    fn clone(&self) -> (copy: SyncOptions)
        ensures
            copy == (SyncOptions {
                selection: copy.selection,
                ..*self
            }),
            copy.selection@ == self.selection@,
    {
        SyncOptions {
            source: self.source.clone(),
            destination: self.destination.clone(),
            cleanup: self.cleanup,
            selection: self.selection.clone(),
            collect_diagnostics: self.collect_diagnostics,
            comparison: self.comparison,
            conflict_policy: self.conflict_policy,
            collect_operations: self.collect_operations,
            concurrency: self.concurrency,
            put_concurrency: self.put_concurrency,
            put_retry_policy: self.put_retry_policy.clone(),
            source_block_size: self.source_block_size,
            source_block_merge_gap: self.source_block_merge_gap,
            source_get_concurrency: self.source_get_concurrency,
            source_window_capacity: self.source_window_capacity,
            source_window_memory_budget_mb: self.source_window_memory_budget_mb,
            body_chunk_size: self.body_chunk_size,
            pipe_capacity: self.pipe_capacity,
        }
    }
}

impl SyncOptions {
    /// Creates extract options for a source ZIP object and destination prefix.
    pub fn new(source: S3Object, destination: S3Prefix) -> (options: SyncOptions)
        ensures
            options == (SyncOptions {
                source,
                destination,
                cleanup: DestinationCleanup::KeepExtra,
                selection: options.selection,
                collect_diagnostics: false,
                comparison: ComparisonMode::CatalogThenHash,
                conflict_policy: ConflictPolicy::ReportAndContinue,
                collect_operations: true,
                concurrency: DEFAULT_CONCURRENCY,
                put_concurrency: DEFAULT_PUT_CONCURRENCY,
                put_retry_policy: options.put_retry_policy,
                source_block_size: DEFAULT_SOURCE_BLOCK_SIZE,
                source_block_merge_gap: DEFAULT_SOURCE_BLOCK_MERGE_GAP,
                source_get_concurrency: DEFAULT_SOURCE_GET_CONCURRENCY,
                source_window_capacity: DEFAULT_SOURCE_WINDOW_CAPACITY,
                source_window_memory_budget_mb: None,
                body_chunk_size: DEFAULT_BODY_CHUNK_SIZE,
                pipe_capacity: DEFAULT_PIPE_CAPACITY,
            }),
            options.selection@ == Seq::<Seq<char>>::empty(),
            is_default_retry_policy(options.put_retry_policy),
    {
        SyncOptions {
            source,
            destination,
            cleanup: DestinationCleanup::default(),
            selection: UnzipSelection::default(),
            collect_diagnostics: false,
            comparison: ComparisonMode::default(),
            conflict_policy: ConflictPolicy::default(),
            collect_operations: true,
            concurrency: DEFAULT_CONCURRENCY,
            put_concurrency: DEFAULT_PUT_CONCURRENCY,
            put_retry_policy: PutRetryPolicy::default(),
            source_block_size: DEFAULT_SOURCE_BLOCK_SIZE,
            source_block_merge_gap: DEFAULT_SOURCE_BLOCK_MERGE_GAP,
            source_get_concurrency: DEFAULT_SOURCE_GET_CONCURRENCY,
            source_window_capacity: DEFAULT_SOURCE_WINDOW_CAPACITY,
            source_window_memory_budget_mb: None,
            body_chunk_size: DEFAULT_BODY_CHUNK_SIZE,
            pipe_capacity: DEFAULT_PIPE_CAPACITY,
        }
    }

    /// Returns the source ZIP object.
    pub fn source(&self) -> (value: &S3Object)
        ensures
            *value == self.source,
    {
        &self.source
    }

    /// Returns the destination prefix.
    pub fn destination(&self) -> (value: &S3Prefix)
        ensures
            *value == self.destination,
    {
        &self.destination
    }

    /// Returns the destination cleanup policy.
    pub fn cleanup(&self) -> (value: DestinationCleanup)
        ensures
            value == self.cleanup,
    {
        self.cleanup
    }

    /// Returns the ZIP entry selection patterns.
    pub fn selection(&self) -> (value: &UnzipSelection)
        ensures
            *value == self.selection,
    {
        &self.selection
    }

    /// Returns whether source scheduler diagnostics are collected.
    pub fn collects_diagnostics(&self) -> (value: bool)
        ensures
            value == self.collect_diagnostics,
    {
        self.collect_diagnostics
    }

    /// Returns the ZIP entry comparison policy.
    pub fn comparison_mode(&self) -> (value: ComparisonMode)
        ensures
            value == self.comparison,
    {
        self.comparison
    }

    /// Returns the conditional write conflict handling policy.
    pub fn conflict_policy(&self) -> (value: ConflictPolicy)
        ensures
            value == self.conflict_policy,
    {
        self.conflict_policy
    }

    /// Returns whether per-object operation records are collected.
    pub fn collects_operations(&self) -> (value: bool)
        ensures
            value == self.collect_operations,
    {
        self.collect_operations
    }

    /// Returns the maximum number of ZIP entries processed concurrently.
    pub fn concurrency(&self) -> (value: usize)
        ensures
            value == self.concurrency,
    {
        self.concurrency
    }

    /// Returns the maximum number of destination `PutObject` requests in flight.
    pub fn put_concurrency(&self) -> (value: usize)
        ensures
            value == self.put_concurrency,
    {
        self.put_concurrency
    }

    /// Returns the retry and backoff policy for destination `PutObject` attempts.
    pub fn put_retry_policy(&self) -> (value: &PutRetryPolicy)
        ensures
            *value == self.put_retry_policy,
    {
        &self.put_retry_policy
    }

    /// Returns the maximum size for planned source ZIP blocks.
    pub fn source_block_size(&self) -> (value: usize)
        ensures
            value == self.source_block_size,
    {
        self.source_block_size
    }

    /// Returns the maximum gap that can be read while coalescing adjacent source spans.
    pub fn source_block_merge_gap(&self) -> (value: usize)
        ensures
            value == self.source_block_merge_gap,
    {
        self.source_block_merge_gap
    }

    /// Returns the maximum number of ranged source `GetObject` requests in flight.
    pub fn source_get_concurrency(&self) -> (value: usize)
        ensures
            value == self.source_get_concurrency,
    {
        self.source_get_concurrency
    }

    /// Returns the configured source block window capacity.
    pub fn source_window_capacity(&self) -> (value: usize)
        ensures
            value == self.source_window_capacity,
    {
        self.source_window_capacity
    }

    /// Returns the available memory budget, in MiB, used to derive the source block window.
    pub fn source_window_memory_budget_mb(&self) -> (value: Option<u64>)
        ensures
            value == self.source_window_memory_budget_mb,
    {
        self.source_window_memory_budget_mb
    }

    /// Returns the buffer size used when streaming entry bodies to S3.
    pub fn body_chunk_size(&self) -> (value: usize)
        ensures
            value == self.body_chunk_size,
    {
        self.body_chunk_size
    }

    /// Returns the in-memory pipe capacity between decompression and S3 upload.
    pub fn pipe_capacity(&self) -> (value: usize)
        ensures
            value == self.pipe_capacity,
    {
        self.pipe_capacity
    }

    /// Sets ZIP entry selection patterns.
    pub fn with_selection(self, selection: UnzipSelection) -> (options: SyncOptions)
        ensures
            options == (SyncOptions { selection, ..self }),
    {
        SyncOptions { selection, ..self }
    }

    /// Deletes destination objects under the prefix that are not present in the ZIP.
    ///
    /// This requires a non-empty destination prefix and cannot be combined with
    /// a non-empty selection.
    pub fn delete_extra_objects(self) -> (options: SyncOptions)
        ensures
            options == (SyncOptions { cleanup: DestinationCleanup::DeleteExtra, ..self }),
    {
        SyncOptions { cleanup: DestinationCleanup::DeleteExtra, ..self }
    }

    /// Sets the destination cleanup policy.
    pub fn with_cleanup(self, cleanup: DestinationCleanup) -> (options: SyncOptions)
        ensures
            options == (SyncOptions { cleanup, ..self }),
    {
        SyncOptions { cleanup, ..self }
    }

    /// Collects source scheduler diagnostics in the returned report.
    pub fn collect_diagnostics(self) -> (options: SyncOptions)
        ensures
            options == (SyncOptions { collect_diagnostics: true, ..self }),
    {
        SyncOptions { collect_diagnostics: true, ..self }
    }

    /// Ignores any embedded catalog and hashes ZIP entries for comparison.
    pub fn force_hash_comparison(self) -> (options: SyncOptions)
        ensures
            options == (SyncOptions { comparison: ComparisonMode::HashEntries, ..self }),
    {
        SyncOptions { comparison: ComparisonMode::HashEntries, ..self }
    }

    /// Sets the ZIP entry comparison policy.
    pub fn with_comparison_mode(self, comparison: ComparisonMode) -> (options: SyncOptions)
        ensures
            options == (SyncOptions { comparison, ..self }),
    {
        SyncOptions { comparison, ..self }
    }

    /// Returns an error after the first conditional write conflict is observed.
    pub fn fail_on_conflict(self) -> (options: SyncOptions)
        ensures
            options == (SyncOptions { conflict_policy: ConflictPolicy::FailFast, ..self }),
    {
        SyncOptions { conflict_policy: ConflictPolicy::FailFast, ..self }
    }

    /// Sets the conditional write conflict handling policy.
    pub fn with_conflict_policy(self, conflict_policy: ConflictPolicy) -> (options: SyncOptions)
        ensures
            options == (SyncOptions { conflict_policy, ..self }),
    {
        SyncOptions { conflict_policy, ..self }
    }

    /// Omits per-object operation records from the returned report.
    pub fn without_operations(self) -> (options: SyncOptions)
        ensures
            options == (SyncOptions { collect_operations: false, ..self }),
    {
        SyncOptions { collect_operations: false, ..self }
    }

    /// Sets the maximum number of ZIP entries processed concurrently.
    pub fn with_concurrency(self, concurrency: usize) -> (options: SyncOptions)
        ensures
            options == (SyncOptions { concurrency, ..self }),
    {
        SyncOptions { concurrency, ..self }
    }

    /// Sets the maximum number of destination `PutObject` requests in flight.
    pub fn with_put_concurrency(self, put_concurrency: usize) -> (options: SyncOptions)
        ensures
            options == (SyncOptions { put_concurrency, ..self }),
    {
        SyncOptions { put_concurrency, ..self }
    }

    /// Sets the retry and backoff policy for destination `PutObject` attempts.
    pub fn with_put_retry_policy(self, put_retry_policy: PutRetryPolicy) -> (options: SyncOptions)
        ensures
            options == (SyncOptions { put_retry_policy, ..self }),
    {
        SyncOptions { put_retry_policy, ..self }
    }

    /// Sets the maximum size for planned source ZIP blocks.
    pub fn with_source_block_size(self, source_block_size: usize) -> (options: SyncOptions)
        ensures
            options == (SyncOptions { source_block_size, ..self }),
    {
        SyncOptions { source_block_size, ..self }
    }

    /// Sets the maximum gap that can be read while coalescing adjacent source spans.
    pub fn with_source_block_merge_gap(self, source_block_merge_gap: usize) -> (options: SyncOptions)
        ensures
            options == (SyncOptions { source_block_merge_gap, ..self }),
    {
        SyncOptions { source_block_merge_gap, ..self }
    }

    /// Sets the maximum number of ranged source `GetObject` requests in flight.
    pub fn with_source_get_concurrency(self, source_get_concurrency: usize) -> (options: SyncOptions)
        ensures
            options == (SyncOptions { source_get_concurrency, ..self }),
    {
        SyncOptions { source_get_concurrency, ..self }
    }

    /// Sets the maximum bytes held by the planned source block window.
    pub fn with_source_window_capacity(self, source_window_capacity: usize) -> (options: SyncOptions)
        ensures
            options == (SyncOptions { source_window_capacity, ..self }),
    {
        SyncOptions { source_window_capacity, ..self }
    }

    /// Sets the available memory budget, in MiB, used to derive the source block window.
    pub fn with_source_window_memory_budget_mb(self, source_window_memory_budget_mb: u64) -> (options: SyncOptions)
        ensures
            options == (SyncOptions { source_window_memory_budget_mb: Some(source_window_memory_budget_mb), ..self }),
    {
        SyncOptions { source_window_memory_budget_mb: Some(source_window_memory_budget_mb), ..self }
    }

    /// Sets the buffer size used when streaming entry bodies to S3.
    pub fn with_body_chunk_size(self, body_chunk_size: usize) -> (options: SyncOptions)
        ensures
            options == (SyncOptions { body_chunk_size, ..self }),
    {
        SyncOptions { body_chunk_size, ..self }
    }

    /// Sets the in-memory pipe capacity between decompression and S3 upload.
    pub fn with_pipe_capacity(self, pipe_capacity: usize) -> (options: SyncOptions)
        ensures
            options == (SyncOptions { pipe_capacity, ..self }),
    {
        SyncOptions { pipe_capacity, ..self }
    }
}

/// One source request for each 256 MiB of memory, at least one and at most eight.
pub open spec fn source_get_slots(available_memory_mb: u64) -> usize {
    let slots = available_memory_mb / ADAPTIVE_SOURCE_GET_MEMORY_STEP_MB;
    if slots < 1 {
        1
    } else if slots > ADAPTIVE_SOURCE_MAX_GET_CONCURRENCY {
        ADAPTIVE_SOURCE_MAX_GET_CONCURRENCY
    } else {
        slots as usize
    }
}

/// Computes adaptive source `GetObject` concurrency for a fixed memory envelope.
///
/// The policy scales source reads in the same direction as Lambda CPU: one
/// source request per 256 MiB of configured memory, capped at eight.
pub fn adaptive_source_get_concurrency(available_memory_mb: u64) -> (slots: usize)
    ensures
        slots == source_get_slots(available_memory_mb),
{
    let slots: u64 = available_memory_mb / ADAPTIVE_SOURCE_GET_MEMORY_STEP_MB;
    if slots < 1 {
        1
    } else if slots > ADAPTIVE_SOURCE_MAX_GET_CONCURRENCY as u64 {
        ADAPTIVE_SOURCE_MAX_GET_CONCURRENCY
    } else {
        slots as usize
    }
}

/// Inputs for deriving an adaptive source block window capacity.
///
/// The capacity calculation reserves a fixed runtime baseline, a fixed amount
/// per extraction worker, and a fixed amount per ZIP file entry before assigning
/// otherwise idle memory to the source ZIP block window.
#[derive(Clone, Copy, Debug, PartialEq, Eq, Structural)]
pub struct AdaptiveSourceWindow {
    /// Available runtime memory, in MiB.
    pub available_memory_mb: u64,
    /// Size of the source ZIP object, in bytes.
    pub source_zip_bytes: u64,
    /// Number of regular file entries in the ZIP.
    pub zip_file_count: usize,
    /// Maximum number of ZIP entries processed concurrently.
    pub concurrency: usize,
    /// Maximum size for planned source ZIP blocks.
    pub source_block_size: usize,
    /// Maximum number of ranged source `GetObject` requests in flight.
    pub source_get_concurrency: usize,
}

pub open spec fn at_least_one(value: usize) -> int {
    if value == 0 {
        1
    } else {
        value as int
    }
}

pub open spec fn lesser(a: int, b: int) -> int {
    if a < b {
        a
    } else {
        b
    }
}

pub open spec fn greater(a: int, b: int) -> int {
    if a > b {
        a
    } else {
        b
    }
}

/// The bytes that are kept from the source block window.
pub open spec fn reserved_bytes(window: AdaptiveSourceWindow) -> int {
    ADAPTIVE_CACHE_BASE_OVERHEAD + at_least_one(window.concurrency)
        * ADAPTIVE_CACHE_WORKER_OVERHEAD + window.zip_file_count * ADAPTIVE_CACHE_FILE_OVERHEAD
        + at_least_one(window.source_get_concurrency) * window.source_block_size
}

/// The idle memory that goes to the source block window.
///
/// A window over the large threshold gives up a fixed slack, and none is
/// larger than the cap or than the source ZIP.
pub open spec fn idle_window(window: AdaptiveSourceWindow) -> int {
    let available = window.available_memory_mb * 1024 * 1024;
    if available > u64::MAX {
        window.source_zip_bytes as int
    } else {
        let idle = lesser(
            greater(available - reserved_bytes(window), 0),
            window.source_zip_bytes as int,
        );
        let trimmed = if idle > ADAPTIVE_CACHE_LARGE_THRESHOLD {
            idle - ADAPTIVE_CACHE_LARGE_RSS_SLACK
        } else {
            idle
        };
        lesser(trimmed, ADAPTIVE_CACHE_MAX_WINDOW_CAPACITY as int)
    }
}

/// The window capacity: the idle memory, and at least room for one block.
pub open spec fn window_capacity(window: AdaptiveSourceWindow) -> int {
    if window.available_memory_mb * 1024 * 1024 > u64::MAX {
        window.source_zip_bytes as int
    } else {
        greater(
            idle_window(window),
            lesser(at_least_one(window.source_block_size), window.source_zip_bytes as int),
        )
    }
}

/// A byte count within `usize`.
pub open spec fn within_usize(bytes: int) -> usize {
    if bytes > usize::MAX {
        usize::MAX
    } else {
        bytes as usize
    }
}

fn to_usize(bytes: u64) -> (value: usize)
    ensures
        value == within_usize(bytes as int),
{
    if bytes > usize::MAX as u64 {
        usize::MAX
    } else {
        bytes as usize
    }
}

pub(crate) fn saturating_product(a: u64, b: u64) -> (product: u64)
    ensures
        product == lesser(a * b, u64::MAX as int),
{
    match a.checked_mul(b) {
        Some(product) => product,
        None => u64::MAX,
    }
}

impl AdaptiveSourceWindow {
    /// Creates adaptive source window inputs with the crate defaults for scheduler knobs.
    pub fn new(available_memory_mb: u64, source_zip_bytes: u64, zip_file_count: usize) -> (window:
        AdaptiveSourceWindow)
        ensures
            window == (AdaptiveSourceWindow {
                available_memory_mb,
                source_zip_bytes,
                zip_file_count,
                concurrency: DEFAULT_CONCURRENCY,
                source_block_size: DEFAULT_SOURCE_BLOCK_SIZE,
                source_get_concurrency: DEFAULT_SOURCE_GET_CONCURRENCY,
            }),
    {
        AdaptiveSourceWindow {
            available_memory_mb,
            source_zip_bytes,
            zip_file_count,
            concurrency: DEFAULT_CONCURRENCY,
            source_block_size: DEFAULT_SOURCE_BLOCK_SIZE,
            source_get_concurrency: DEFAULT_SOURCE_GET_CONCURRENCY,
        }
    }

    /// Sets the maximum number of ZIP entries processed concurrently.
    pub fn with_concurrency(self, concurrency: usize) -> (options: AdaptiveSourceWindow)
        ensures
            options == (AdaptiveSourceWindow { concurrency, ..self }),
    {
        AdaptiveSourceWindow { concurrency, ..self }
    }

    /// Sets the maximum size for planned source ZIP blocks.
    pub fn with_source_block_size(self, source_block_size: usize) -> (options: AdaptiveSourceWindow)
        ensures
            options == (AdaptiveSourceWindow { source_block_size, ..self }),
    {
        AdaptiveSourceWindow { source_block_size, ..self }
    }

    /// Sets the maximum number of ranged source `GetObject` requests in flight.
    pub fn with_source_get_concurrency(self, source_get_concurrency: usize) -> (options: AdaptiveSourceWindow)
        ensures
            options == (AdaptiveSourceWindow { source_get_concurrency, ..self }),
    {
        AdaptiveSourceWindow { source_get_concurrency, ..self }
    }

    /// The idle memory in bytes, or nothing where the memory is out of bounds.
    fn idle(self) -> (idle: Option<u64>)
        ensures
            idle is None <==> self.available_memory_mb * 1024 * 1024 > u64::MAX,
            idle is Some ==> idle->Some_0 == idle_window(self),
    {
        let available: u64 = match self.available_memory_mb.checked_mul(1024 * 1024) {
            Some(available) => available,
            None => return None,
        };
        let workers: u64 = if self.concurrency == 0 {
            1
        } else {
            self.concurrency as u64
        };
        let gets: u64 = if self.source_get_concurrency == 0 {
            1
        } else {
            self.source_get_concurrency as u64
        };
        let worker_budget: u64 = saturating_product(workers, ADAPTIVE_CACHE_WORKER_OVERHEAD);
        let file_budget: u64 = saturating_product(
            self.zip_file_count as u64,
            ADAPTIVE_CACHE_FILE_OVERHEAD,
        );
        let in_flight_budget: u64 = saturating_product(gets, self.source_block_size as u64);
        let reserved: u64 = ADAPTIVE_CACHE_BASE_OVERHEAD.saturating_add(
            worker_budget,
        ).saturating_add(file_budget).saturating_add(in_flight_budget);
        assert(reserved == lesser(reserved_bytes(self), u64::MAX as int)) by {
            assert(worker_budget >= 0 && file_budget >= 0 && in_flight_budget >= 0);
            assert(gets * self.source_block_size >= 0) by (nonlinear_arith);
            assert(workers * ADAPTIVE_CACHE_WORKER_OVERHEAD >= 0);
        }
        let remaining: u64 = available.saturating_sub(reserved);
        let idle: u64 = if remaining < self.source_zip_bytes {
            remaining
        } else {
            self.source_zip_bytes
        };
        let trimmed: u64 = if idle > ADAPTIVE_CACHE_LARGE_THRESHOLD {
            idle.saturating_sub(ADAPTIVE_CACHE_LARGE_RSS_SLACK)
        } else {
            idle
        };
        if trimmed < ADAPTIVE_CACHE_MAX_WINDOW_CAPACITY {
            Some(trimmed)
        } else {
            Some(ADAPTIVE_CACHE_MAX_WINDOW_CAPACITY)
        }
    }

    /// Computes the adaptive source block window capacity.
    pub fn capacity(self) -> (capacity: usize)
        ensures
            capacity == within_usize(window_capacity(self)),
    {
        let idle: u64 = match self.idle() {
            Some(idle) => idle,
            None => return to_usize(self.source_zip_bytes),
        };
        let block: u64 = if self.source_block_size == 0 {
            1
        } else {
            self.source_block_size as u64
        };
        let minimum: u64 = if block < self.source_zip_bytes {
            block
        } else {
            self.source_zip_bytes
        };
        if idle > minimum {
            to_usize(idle)
        } else {
            to_usize(minimum)
        }
    }
}

/// The idle memory that a source block window can take, without making room
/// for a first block.
pub fn adaptive_source_window_capacity(
    available_memory_mb: u64,
    source_zip_bytes: u64,
    concurrency: usize,
    zip_file_count: usize,
    source_block_size: usize,
    source_get_concurrency: usize,
) -> (capacity: usize)
    ensures
        capacity == within_usize(
            idle_window(
                AdaptiveSourceWindow {
                    available_memory_mb,
                    source_zip_bytes,
                    zip_file_count,
                    concurrency,
                    source_block_size,
                    source_get_concurrency,
                },
            ),
        ),
{
    let window = AdaptiveSourceWindow {
        available_memory_mb,
        source_zip_bytes,
        zip_file_count,
        concurrency,
        source_block_size,
        source_get_concurrency,
    };
    match window.idle() {
        Some(idle) => to_usize(idle),
        None => to_usize(source_zip_bytes),
    }
}

/// A derived window holds at least one block, and no more than the source ZIP.
pub proof fn law_window_holds_a_block(window: AdaptiveSourceWindow)
    ensures
        window_capacity(window) >= lesser(
            at_least_one(window.source_block_size),
            window.source_zip_bytes as int,
        ),
        0 <= window_capacity(window) <= window.source_zip_bytes,
{
}

/// The idle memory in the window is at most the cap, and together with what is
/// reserved it fits the memory that is available.
pub proof fn law_window_leaves_what_is_reserved(window: AdaptiveSourceWindow)
    requires
        window.available_memory_mb * 1024 * 1024 <= u64::MAX,
    ensures
        idle_window(window) <= ADAPTIVE_CACHE_MAX_WINDOW_CAPACITY,
        idle_window(window) > 0 ==> idle_window(window) + reserved_bytes(window)
            <= window.available_memory_mb * 1024 * 1024,
{
}

/// The memory that is neither reserved nor more than the source ZIP.
pub open spec fn idle_memory(window: AdaptiveSourceWindow) -> int {
    lesser(
        greater(window.available_memory_mb * 1024 * 1024 - reserved_bytes(window), 0),
        window.source_zip_bytes as int,
    )
}

/// More memory does not make the window smaller, unless the slack that is given
/// up over the threshold takes more than was added.
pub proof fn law_window_grows_with_memory(
    window: AdaptiveSourceWindow,
    more: AdaptiveSourceWindow,
)
    requires
        more == (AdaptiveSourceWindow { available_memory_mb: more.available_memory_mb, ..window }),
        window.available_memory_mb <= more.available_memory_mb,
        idle_memory(window) <= ADAPTIVE_CACHE_LARGE_THRESHOLD < idle_memory(more) ==> {
            ||| idle_memory(window) <= idle_memory(more) - ADAPTIVE_CACHE_LARGE_RSS_SLACK
            ||| idle_memory(window) <= at_least_one(window.source_block_size)
            ||| more.available_memory_mb * 1024 * 1024 > u64::MAX
        },
    ensures
        window_capacity(window) <= window_capacity(more),
{
}

/// Options for zipping a local directory and uploading it as an S3 object.
#[derive(Debug)]
pub struct UploadOptions {
    /// Local directory whose regular files and empty directories should be included recursively.
    pub source_dir: PathBuf,
    /// Destination ZIP object.
    pub destination: S3Object,
    /// Include the embedded update catalog at the reserved path.
    pub include_catalog: bool,
    /// Compression method for regular file entries.
    pub compression: ZipCompression,
    /// Buffer size used when streaming the ZIP body to S3.
    ///
    /// Must be greater than zero and no larger than 16 MiB.
    pub body_chunk_size: usize,
    /// Capacity of the in-memory pipe between ZIP production and S3 upload.
    ///
    /// Must be greater than zero and no larger than 64 MiB.
    pub pipe_capacity: usize,
}

impl Clone for UploadOptions {
    fn clone(&self) -> (copy: UploadOptions)
        ensures
            copy == *self,
    {
        UploadOptions {
            source_dir: self.source_dir.clone(),
            destination: self.destination.clone(),
            include_catalog: self.include_catalog,
            compression: self.compression,
            body_chunk_size: self.body_chunk_size,
            pipe_capacity: self.pipe_capacity,
        }
    }
}

impl UploadOptions {
    /// Creates upload options for a local source directory and destination object.
    pub fn new(source_dir: PathBuf, destination: S3Object) -> (options: UploadOptions)
        ensures
            options == (UploadOptions {
                source_dir,
                destination,
                include_catalog: true,
                compression: ZipCompression::Deflate,
                body_chunk_size: DEFAULT_BODY_CHUNK_SIZE,
                pipe_capacity: DEFAULT_PIPE_CAPACITY,
            }),
    {
        UploadOptions {
            source_dir,
            destination,
            include_catalog: true,
            compression: ZipCompression::Deflate,
            body_chunk_size: DEFAULT_BODY_CHUNK_SIZE,
            pipe_capacity: DEFAULT_PIPE_CAPACITY,
        }
    }

    /// Omits the embedded update catalog from the ZIP.
    pub fn without_catalog(self) -> (options: UploadOptions)
        ensures
            options == (UploadOptions { include_catalog: false, ..self }),
    {
        UploadOptions { include_catalog: false, ..self }
    }

    /// Sets the compression method used for regular file entries.
    pub fn with_compression(self, compression: ZipCompression) -> (options: UploadOptions)
        ensures
            options == (UploadOptions { compression, ..self }),
    {
        UploadOptions { compression, ..self }
    }

    /// Sets the buffer size used when streaming the ZIP body to S3.
    pub fn with_body_chunk_size(self, body_chunk_size: usize) -> (options: UploadOptions)
        ensures
            options == (UploadOptions { body_chunk_size, ..self }),
    {
        UploadOptions { body_chunk_size, ..self }
    }

    /// Sets the in-memory pipe capacity between ZIP production and S3 upload.
    pub fn with_pipe_capacity(self, pipe_capacity: usize) -> (options: UploadOptions)
        ensures
            options == (UploadOptions { pipe_capacity, ..self }),
    {
        UploadOptions { pipe_capacity, ..self }
    }
}

/// Options for zipping a local directory to a local ZIP file.
#[derive(Debug)]
pub struct LocalZipOptions {
    /// Local directory whose regular files and empty directories should be included recursively.
    pub source_dir: PathBuf,
    /// Destination ZIP file path.
    pub destination_zip: PathBuf,
    /// Include the embedded update catalog at the reserved path.
    pub include_catalog: bool,
    /// Compression method for regular file entries.
    pub compression: ZipCompression,
}

impl Clone for LocalZipOptions {
    fn clone(&self) -> (copy: LocalZipOptions)
        ensures
            copy == *self,
    {
        LocalZipOptions {
            source_dir: self.source_dir.clone(),
            destination_zip: self.destination_zip.clone(),
            include_catalog: self.include_catalog,
            compression: self.compression,
        }
    }
}

impl LocalZipOptions {
    /// Creates options for a local source directory and local destination ZIP.
    pub fn new(source_dir: PathBuf, destination_zip: PathBuf) -> (options: LocalZipOptions)
        ensures
            options == (LocalZipOptions {
                source_dir,
                destination_zip,
                include_catalog: true,
                compression: ZipCompression::Deflate,
            }),
    {
        LocalZipOptions {
            source_dir,
            destination_zip,
            include_catalog: true,
            compression: ZipCompression::Deflate,
        }
    }

    /// Omits the embedded update catalog from the ZIP.
    pub fn without_catalog(self) -> (options: LocalZipOptions)
        ensures
            options == (LocalZipOptions { include_catalog: false, ..self }),
    {
        LocalZipOptions { include_catalog: false, ..self }
    }

    /// Sets the compression method used for regular file entries.
    pub fn with_compression(self, compression: ZipCompression) -> (options: LocalZipOptions)
        ensures
            options == (LocalZipOptions { compression, ..self }),
    {
        LocalZipOptions { compression, ..self }
    }
}

/// Options for zipping an S3 prefix and uploading it as an S3 ZIP object.
#[derive(Debug)]
pub struct S3PrefixUploadOptions {
    /// Source prefix whose objects should be included recursively.
    pub source: S3Prefix,
    /// Destination ZIP object.
    pub destination: S3Object,
    /// Include the embedded update catalog at the reserved path.
    pub include_catalog: bool,
    /// Compression method for regular file entries.
    pub compression: ZipCompression,
    /// Buffer size used when streaming the ZIP body to S3.
    ///
    /// Must be greater than zero and no larger than 16 MiB.
    pub body_chunk_size: usize,
    /// Capacity of the in-memory pipe between ZIP production and S3 upload.
    ///
    /// Must be greater than zero and no larger than 64 MiB.
    pub pipe_capacity: usize,
}

impl Clone for S3PrefixUploadOptions {
    fn clone(&self) -> (copy: S3PrefixUploadOptions)
        ensures
            copy == *self,
    {
        S3PrefixUploadOptions {
            source: self.source.clone(),
            destination: self.destination.clone(),
            include_catalog: self.include_catalog,
            compression: self.compression,
            body_chunk_size: self.body_chunk_size,
            pipe_capacity: self.pipe_capacity,
        }
    }
}

impl S3PrefixUploadOptions {
    /// Creates upload options for an S3 source prefix and destination object.
    pub fn new(source: S3Prefix, destination: S3Object) -> (options: S3PrefixUploadOptions)
        ensures
            options == (S3PrefixUploadOptions {
                source,
                destination,
                include_catalog: true,
                compression: ZipCompression::Deflate,
                body_chunk_size: DEFAULT_BODY_CHUNK_SIZE,
                pipe_capacity: DEFAULT_PIPE_CAPACITY,
            }),
    {
        S3PrefixUploadOptions {
            source,
            destination,
            include_catalog: true,
            compression: ZipCompression::Deflate,
            body_chunk_size: DEFAULT_BODY_CHUNK_SIZE,
            pipe_capacity: DEFAULT_PIPE_CAPACITY,
        }
    }

    /// Omits the embedded update catalog from the ZIP.
    pub fn without_catalog(self) -> (options: S3PrefixUploadOptions)
        ensures
            options == (S3PrefixUploadOptions { include_catalog: false, ..self }),
    {
        S3PrefixUploadOptions { include_catalog: false, ..self }
    }

    /// Sets the compression method used for regular file entries.
    pub fn with_compression(self, compression: ZipCompression) -> (options: S3PrefixUploadOptions)
        ensures
            options == (S3PrefixUploadOptions { compression, ..self }),
    {
        S3PrefixUploadOptions { compression, ..self }
    }

    /// Sets the buffer size used when streaming the ZIP body to S3.
    pub fn with_body_chunk_size(self, body_chunk_size: usize) -> (options: S3PrefixUploadOptions)
        ensures
            options == (S3PrefixUploadOptions { body_chunk_size, ..self }),
    {
        S3PrefixUploadOptions { body_chunk_size, ..self }
    }

    /// Sets the in-memory pipe capacity between ZIP production and S3 upload.
    pub fn with_pipe_capacity(self, pipe_capacity: usize) -> (options: S3PrefixUploadOptions)
        ensures
            options == (S3PrefixUploadOptions { pipe_capacity, ..self }),
    {
        S3PrefixUploadOptions { pipe_capacity, ..self }
    }
}

/// Options for zipping an S3 prefix to a local ZIP file.
#[derive(Debug)]
pub struct S3PrefixLocalZipOptions {
    /// Source prefix whose objects should be included recursively.
    pub source: S3Prefix,
    /// Destination ZIP file path.
    pub destination_zip: PathBuf,
    /// Include the embedded update catalog at the reserved path.
    pub include_catalog: bool,
    /// Compression method for regular file entries.
    pub compression: ZipCompression,
}

impl Clone for S3PrefixLocalZipOptions {
    fn clone(&self) -> (copy: S3PrefixLocalZipOptions)
        ensures
            copy == *self,
    {
        S3PrefixLocalZipOptions {
            source: self.source.clone(),
            destination_zip: self.destination_zip.clone(),
            include_catalog: self.include_catalog,
            compression: self.compression,
        }
    }
}

impl S3PrefixLocalZipOptions {
    /// Creates options for an S3 source prefix and local destination ZIP.
    pub fn new(source: S3Prefix, destination_zip: PathBuf) -> (options: S3PrefixLocalZipOptions)
        ensures
            options == (S3PrefixLocalZipOptions {
                source,
                destination_zip,
                include_catalog: true,
                compression: ZipCompression::Deflate,
            }),
    {
        S3PrefixLocalZipOptions {
            source,
            destination_zip,
            include_catalog: true,
            compression: ZipCompression::Deflate,
        }
    }

    /// Omits the embedded update catalog from the ZIP.
    pub fn without_catalog(self) -> (options: S3PrefixLocalZipOptions)
        ensures
            options == (S3PrefixLocalZipOptions { include_catalog: false, ..self }),
    {
        S3PrefixLocalZipOptions { include_catalog: false, ..self }
    }

    /// Sets the compression method used for regular file entries.
    pub fn with_compression(self, compression: ZipCompression) -> (options: S3PrefixLocalZipOptions)
        ensures
            options == (S3PrefixLocalZipOptions { compression, ..self }),
    {
        S3PrefixLocalZipOptions { compression, ..self }
    }
}

/// Options for extracting a local ZIP file into an S3 prefix.
#[derive(Debug)]
pub struct LocalZipSyncOptions {
    /// Source ZIP file path.
    pub source_zip: PathBuf,
    /// Destination prefix that receives ZIP entries.
    pub destination: S3Prefix,
    /// How destination objects outside the ZIP are handled.
    pub cleanup: DestinationCleanup,
    /// ZIP entry selection. Empty selection extracts every supported entry.
    pub selection: UnzipSelection,
    /// Comparison policy for embedded catalogs and entry hashing.
    pub comparison: ComparisonMode,
    /// Collect one operation record per processed entry in the returned report.
    pub collect_operations: bool,
    /// Maximum number of ZIP entries processed concurrently.
    pub concurrency: usize,
    /// Buffer size used when streaming the ZIP body to S3.
    ///
    /// Must be greater than zero and no larger than 16 MiB.
    pub body_chunk_size: usize,
    /// Capacity of the in-memory pipe between ZIP production and S3 upload.
    ///
    /// Must be greater than zero and no larger than 64 MiB.
    pub pipe_capacity: usize,
}

impl Clone for LocalZipSyncOptions {
    fn clone(&self) -> (copy: LocalZipSyncOptions)
        ensures
            copy == (LocalZipSyncOptions {
                selection: copy.selection,
                ..*self
            }),
            copy.selection@ == self.selection@,
    {
        LocalZipSyncOptions {
            source_zip: self.source_zip.clone(),
            destination: self.destination.clone(),
            cleanup: self.cleanup,
            selection: self.selection.clone(),
            comparison: self.comparison,
            collect_operations: self.collect_operations,
            concurrency: self.concurrency,
            body_chunk_size: self.body_chunk_size,
            pipe_capacity: self.pipe_capacity,
        }
    }
}

impl LocalZipSyncOptions {
    /// Creates extract options for a local source ZIP file and destination prefix.
    pub fn new(source_zip: PathBuf, destination: S3Prefix) -> (options: LocalZipSyncOptions)
        ensures
            options == (LocalZipSyncOptions {
                source_zip,
                destination,
                cleanup: DestinationCleanup::KeepExtra,
                selection: options.selection,
                comparison: ComparisonMode::CatalogThenHash,
                collect_operations: true,
                concurrency: DEFAULT_CONCURRENCY,
                body_chunk_size: DEFAULT_BODY_CHUNK_SIZE,
                pipe_capacity: DEFAULT_PIPE_CAPACITY,
            }),
            options.selection@ == Seq::<Seq<char>>::empty(),
    {
        LocalZipSyncOptions {
            source_zip,
            destination,
            cleanup: DestinationCleanup::default(),
            selection: UnzipSelection::default(),
            comparison: ComparisonMode::default(),
            collect_operations: true,
            concurrency: DEFAULT_CONCURRENCY,
            body_chunk_size: DEFAULT_BODY_CHUNK_SIZE,
            pipe_capacity: DEFAULT_PIPE_CAPACITY,
        }
    }

    /// Sets ZIP entry selection patterns.
    pub fn with_selection(self, selection: UnzipSelection) -> (options: LocalZipSyncOptions)
        ensures
            options == (LocalZipSyncOptions { selection, ..self }),
    {
        LocalZipSyncOptions { selection, ..self }
    }

    /// Deletes destination objects under the prefix that are not present in the ZIP.
    ///
    /// This requires a non-empty destination prefix and cannot be combined with
    /// a non-empty selection.
    pub fn delete_extra_objects(self) -> (options: LocalZipSyncOptions)
        ensures
            options == (LocalZipSyncOptions { cleanup: DestinationCleanup::DeleteExtra, ..self }),
    {
        LocalZipSyncOptions { cleanup: DestinationCleanup::DeleteExtra, ..self }
    }

    /// Sets the destination cleanup policy.
    pub fn with_cleanup(self, cleanup: DestinationCleanup) -> (options: LocalZipSyncOptions)
        ensures
            options == (LocalZipSyncOptions { cleanup, ..self }),
    {
        LocalZipSyncOptions { cleanup, ..self }
    }

    /// Ignores any embedded catalog and hashes ZIP entries for comparison.
    pub fn force_hash_comparison(self) -> (options: LocalZipSyncOptions)
        ensures
            options == (LocalZipSyncOptions { comparison: ComparisonMode::HashEntries, ..self }),
    {
        LocalZipSyncOptions { comparison: ComparisonMode::HashEntries, ..self }
    }

    /// Sets the ZIP entry comparison policy.
    pub fn with_comparison_mode(self, comparison: ComparisonMode) -> (options: LocalZipSyncOptions)
        ensures
            options == (LocalZipSyncOptions { comparison, ..self }),
    {
        LocalZipSyncOptions { comparison, ..self }
    }

    /// Omits per-object operation records from the returned report.
    pub fn without_operations(self) -> (options: LocalZipSyncOptions)
        ensures
            options == (LocalZipSyncOptions { collect_operations: false, ..self }),
    {
        LocalZipSyncOptions { collect_operations: false, ..self }
    }

    /// Sets the maximum number of ZIP entries processed concurrently.
    pub fn with_concurrency(self, concurrency: usize) -> (options: LocalZipSyncOptions)
        ensures
            options == (LocalZipSyncOptions { concurrency, ..self }),
    {
        LocalZipSyncOptions { concurrency, ..self }
    }

    /// Sets the buffer size used when streaming entry bodies to S3.
    pub fn with_body_chunk_size(self, body_chunk_size: usize) -> (options: LocalZipSyncOptions)
        ensures
            options == (LocalZipSyncOptions { body_chunk_size, ..self }),
    {
        LocalZipSyncOptions { body_chunk_size, ..self }
    }

    /// Sets the in-memory pipe capacity between decompression and S3 upload.
    pub fn with_pipe_capacity(self, pipe_capacity: usize) -> (options: LocalZipSyncOptions)
        ensures
            options == (LocalZipSyncOptions { pipe_capacity, ..self }),
    {
        LocalZipSyncOptions { pipe_capacity, ..self }
    }
}

/// Options for extracting an S3 ZIP object into a local directory.
#[derive(Debug)]
pub struct S3ZipLocalUnzipOptions {
    /// Source ZIP object.
    pub source: S3Object,
    /// Destination local directory.
    pub destination_dir: PathBuf,
    /// ZIP entry selection. Empty selection extracts every supported entry.
    pub selection: UnzipSelection,
    /// Collect source scheduler diagnostics in the returned report.
    pub collect_diagnostics: bool,
    /// Comparison policy for embedded catalogs and entry hashing.
    pub comparison: ComparisonMode,
    /// Collect one operation record per processed entry in the returned report.
    pub collect_operations: bool,
    /// Maximum number of ZIP entries processed concurrently.
    pub concurrency: usize,
    /// Maximum size for planned source ZIP blocks.
    pub source_block_size: usize,
    /// Maximum gap that can be read while coalescing adjacent source spans.
    pub source_block_merge_gap: usize,
    /// Maximum number of ranged source `GetObject` requests in flight.
    pub source_get_concurrency: usize,
    /// Maximum bytes held by the planned source block window.
    pub source_window_capacity: usize,
    /// Available memory budget, in MiB, used to derive the source block window.
    pub source_window_memory_budget_mb: Option<u64>,
}

impl Clone for S3ZipLocalUnzipOptions {
    fn clone(&self) -> (copy: S3ZipLocalUnzipOptions)
        ensures
            copy == (S3ZipLocalUnzipOptions {
                selection: copy.selection,
                ..*self
            }),
            copy.selection@ == self.selection@,
    {
        S3ZipLocalUnzipOptions {
            source: self.source.clone(),
            destination_dir: self.destination_dir.clone(),
            selection: self.selection.clone(),
            collect_diagnostics: self.collect_diagnostics,
            comparison: self.comparison,
            collect_operations: self.collect_operations,
            concurrency: self.concurrency,
            source_block_size: self.source_block_size,
            source_block_merge_gap: self.source_block_merge_gap,
            source_get_concurrency: self.source_get_concurrency,
            source_window_capacity: self.source_window_capacity,
            source_window_memory_budget_mb: self.source_window_memory_budget_mb,
        }
    }
}

impl S3ZipLocalUnzipOptions {
    /// Creates extract options for a source ZIP object and local destination directory.
    pub fn new(source: S3Object, destination_dir: PathBuf) -> (options: S3ZipLocalUnzipOptions)
        ensures
            options == (S3ZipLocalUnzipOptions {
                source,
                destination_dir,
                selection: options.selection,
                collect_diagnostics: false,
                comparison: ComparisonMode::CatalogThenHash,
                collect_operations: true,
                concurrency: DEFAULT_CONCURRENCY,
                source_block_size: DEFAULT_SOURCE_BLOCK_SIZE,
                source_block_merge_gap: DEFAULT_SOURCE_BLOCK_MERGE_GAP,
                source_get_concurrency: DEFAULT_SOURCE_GET_CONCURRENCY,
                source_window_capacity: DEFAULT_SOURCE_WINDOW_CAPACITY,
                source_window_memory_budget_mb: None,
            }),
            options.selection@ == Seq::<Seq<char>>::empty(),
    {
        S3ZipLocalUnzipOptions {
            source,
            destination_dir,
            selection: UnzipSelection::default(),
            collect_diagnostics: false,
            comparison: ComparisonMode::default(),
            collect_operations: true,
            concurrency: DEFAULT_CONCURRENCY,
            source_block_size: DEFAULT_SOURCE_BLOCK_SIZE,
            source_block_merge_gap: DEFAULT_SOURCE_BLOCK_MERGE_GAP,
            source_get_concurrency: DEFAULT_SOURCE_GET_CONCURRENCY,
            source_window_capacity: DEFAULT_SOURCE_WINDOW_CAPACITY,
            source_window_memory_budget_mb: None,
        }
    }

    /// Sets ZIP entry selection patterns.
    pub fn with_selection(self, selection: UnzipSelection) -> (options: S3ZipLocalUnzipOptions)
        ensures
            options == (S3ZipLocalUnzipOptions { selection, ..self }),
    {
        S3ZipLocalUnzipOptions { selection, ..self }
    }

    /// Collects source scheduler diagnostics in the returned report.
    pub fn collect_diagnostics(self) -> (options: S3ZipLocalUnzipOptions)
        ensures
            options == (S3ZipLocalUnzipOptions { collect_diagnostics: true, ..self }),
    {
        S3ZipLocalUnzipOptions { collect_diagnostics: true, ..self }
    }

    /// Ignores any embedded catalog and hashes ZIP entries for comparison.
    pub fn force_hash_comparison(self) -> (options: S3ZipLocalUnzipOptions)
        ensures
            options == (S3ZipLocalUnzipOptions { comparison: ComparisonMode::HashEntries, ..self }),
    {
        S3ZipLocalUnzipOptions { comparison: ComparisonMode::HashEntries, ..self }
    }

    /// Sets the ZIP entry comparison policy.
    pub fn with_comparison_mode(self, comparison: ComparisonMode) -> (options: S3ZipLocalUnzipOptions)
        ensures
            options == (S3ZipLocalUnzipOptions { comparison, ..self }),
    {
        S3ZipLocalUnzipOptions { comparison, ..self }
    }

    /// Omits per-object operation records from the returned report.
    pub fn without_operations(self) -> (options: S3ZipLocalUnzipOptions)
        ensures
            options == (S3ZipLocalUnzipOptions { collect_operations: false, ..self }),
    {
        S3ZipLocalUnzipOptions { collect_operations: false, ..self }
    }

    /// Sets the maximum number of ZIP entries processed concurrently.
    pub fn with_concurrency(self, concurrency: usize) -> (options: S3ZipLocalUnzipOptions)
        ensures
            options == (S3ZipLocalUnzipOptions { concurrency, ..self }),
    {
        S3ZipLocalUnzipOptions { concurrency, ..self }
    }

    /// Sets the maximum size for planned source ZIP blocks.
    pub fn with_source_block_size(self, source_block_size: usize) -> (options: S3ZipLocalUnzipOptions)
        ensures
            options == (S3ZipLocalUnzipOptions { source_block_size, ..self }),
    {
        S3ZipLocalUnzipOptions { source_block_size, ..self }
    }

    /// Sets the maximum gap that can be read while coalescing adjacent source spans.
    pub fn with_source_block_merge_gap(self, source_block_merge_gap: usize) -> (options: S3ZipLocalUnzipOptions)
        ensures
            options == (S3ZipLocalUnzipOptions { source_block_merge_gap, ..self }),
    {
        S3ZipLocalUnzipOptions { source_block_merge_gap, ..self }
    }

    /// Sets the maximum number of ranged source `GetObject` requests in flight.
    pub fn with_source_get_concurrency(self, source_get_concurrency: usize) -> (options: S3ZipLocalUnzipOptions)
        ensures
            options == (S3ZipLocalUnzipOptions { source_get_concurrency, ..self }),
    {
        S3ZipLocalUnzipOptions { source_get_concurrency, ..self }
    }

    /// Sets the maximum bytes held by the planned source block window.
    pub fn with_source_window_capacity(self, source_window_capacity: usize) -> (options: S3ZipLocalUnzipOptions)
        ensures
            options == (S3ZipLocalUnzipOptions { source_window_capacity, ..self }),
    {
        S3ZipLocalUnzipOptions { source_window_capacity, ..self }
    }

    /// Sets the available memory budget, in MiB, used to derive the source block window.
    pub fn with_source_window_memory_budget_mb(self, source_window_memory_budget_mb: u64) -> (options: S3ZipLocalUnzipOptions)
        ensures
            options == (S3ZipLocalUnzipOptions { source_window_memory_budget_mb: Some(source_window_memory_budget_mb), ..self }),
    {
        S3ZipLocalUnzipOptions { source_window_memory_budget_mb: Some(source_window_memory_budget_mb), ..self }
    }
}

/// Options for extracting a local ZIP file into a local directory.
#[derive(Debug)]
pub struct LocalUnzipOptions {
    /// Source ZIP file path.
    pub source_zip: PathBuf,
    /// Destination local directory.
    pub destination_dir: PathBuf,
    /// ZIP entry selection. Empty selection extracts every supported entry.
    pub selection: UnzipSelection,
    /// Comparison policy for embedded catalogs and entry hashing.
    pub comparison: ComparisonMode,
    /// Collect one operation record per processed entry in the returned report.
    pub collect_operations: bool,
    /// Maximum number of ZIP entries processed concurrently.
    pub concurrency: usize,
}

impl Clone for LocalUnzipOptions {
    fn clone(&self) -> (copy: LocalUnzipOptions)
        ensures
            copy == (LocalUnzipOptions {
                selection: copy.selection,
                ..*self
            }),
            copy.selection@ == self.selection@,
    {
        LocalUnzipOptions {
            source_zip: self.source_zip.clone(),
            destination_dir: self.destination_dir.clone(),
            selection: self.selection.clone(),
            comparison: self.comparison,
            collect_operations: self.collect_operations,
            concurrency: self.concurrency,
        }
    }
}

impl LocalUnzipOptions {
    /// Creates extract options for a source ZIP file and local destination directory.
    pub fn new(source_zip: PathBuf, destination_dir: PathBuf) -> (options: LocalUnzipOptions)
        ensures
            options == (LocalUnzipOptions {
                source_zip,
                destination_dir,
                selection: options.selection,
                comparison: ComparisonMode::CatalogThenHash,
                collect_operations: true,
                concurrency: DEFAULT_CONCURRENCY,
            }),
            options.selection@ == Seq::<Seq<char>>::empty(),
    {
        LocalUnzipOptions {
            source_zip,
            destination_dir,
            selection: UnzipSelection::default(),
            comparison: ComparisonMode::default(),
            collect_operations: true,
            concurrency: DEFAULT_CONCURRENCY,
        }
    }

    /// Sets ZIP entry selection patterns.
    pub fn with_selection(self, selection: UnzipSelection) -> (options: LocalUnzipOptions)
        ensures
            options == (LocalUnzipOptions { selection, ..self }),
    {
        LocalUnzipOptions { selection, ..self }
    }

    /// Ignores any embedded catalog and hashes ZIP entries for comparison.
    pub fn force_hash_comparison(self) -> (options: LocalUnzipOptions)
        ensures
            options == (LocalUnzipOptions { comparison: ComparisonMode::HashEntries, ..self }),
    {
        LocalUnzipOptions { comparison: ComparisonMode::HashEntries, ..self }
    }

    /// Sets the ZIP entry comparison policy.
    pub fn with_comparison_mode(self, comparison: ComparisonMode) -> (options: LocalUnzipOptions)
        ensures
            options == (LocalUnzipOptions { comparison, ..self }),
    {
        LocalUnzipOptions { comparison, ..self }
    }

    /// Omits per-object operation records from the returned report.
    pub fn without_operations(self) -> (options: LocalUnzipOptions)
        ensures
            options == (LocalUnzipOptions { collect_operations: false, ..self }),
    {
        LocalUnzipOptions { collect_operations: false, ..self }
    }

    /// Sets the maximum number of ZIP entries processed concurrently.
    pub fn with_concurrency(self, concurrency: usize) -> (options: LocalUnzipOptions)
        ensures
            options == (LocalUnzipOptions { concurrency, ..self }),
    {
        LocalUnzipOptions { concurrency, ..self }
    }
}

/// Progress event emitted while preparing and streaming an upload ZIP.
#[derive(Debug, PartialEq, Eq)]
pub enum UploadProgress {
    /// The source has been scanned and the total entry count is known.
    Planned {
        /// Total number of files and preserved directory entries included in the ZIP.
        total_files: usize,
        /// Total uncompressed bytes across all files.
        total_bytes: u64,
    },
    /// A file or preserved directory entry has started streaming into the ZIP writer.
    FileStarted {
        /// One-based index of the entry currently being streamed.
        current_file: usize,
        /// Total number of files and preserved directory entries included in the ZIP.
        total_files: usize,
        /// Number of entries that have finished streaming into the ZIP.
        processed_files: usize,
        /// Uncompressed bytes that have finished streaming into the ZIP.
        processed_bytes: u64,
        /// Total uncompressed bytes across all files.
        total_bytes: u64,
        /// ZIP path of the entry that just started.
        path: String,
    },
    /// A file is still streaming and byte progress has advanced.
    FileProgress {
        /// One-based index of the entry currently being streamed.
        current_file: usize,
        /// Total number of files and preserved directory entries included in the ZIP.
        total_files: usize,
        /// Number of entries that have finished streaming into the ZIP.
        processed_files: usize,
        /// Uncompressed bytes that have streamed into the ZIP producer so far.
        processed_bytes: u64,
        /// Total uncompressed bytes across all files.
        total_bytes: u64,
        /// ZIP path of the file currently being streamed.
        path: String,
    },
    /// One file or preserved directory entry has finished streaming into the ZIP writer.
    FileFinished {
        /// Number of entries that have finished streaming into the ZIP.
        processed_files: usize,
        /// Total number of files and preserved directory entries included in the ZIP.
        total_files: usize,
        /// Uncompressed bytes that have finished streaming into the ZIP.
        processed_bytes: u64,
        /// Total uncompressed bytes across all files.
        total_bytes: u64,
        /// ZIP path of the entry that just finished.
        path: String,
    },
    /// ZIP production has finished writing into the upload pipe.
    ///
    /// S3 multipart upload completion may still be in progress when this event
    /// is emitted.
    Finished {
        /// Total number of files and preserved directory entries included in the ZIP.
        total_files: usize,
        /// Total uncompressed bytes across all files.
        total_bytes: u64,
    },
}

impl Clone for UploadProgress {
    fn clone(&self) -> (copy: UploadProgress)
        ensures
            copy == *self,
    {
        match self {
            UploadProgress::Planned { total_files, total_bytes } => UploadProgress::Planned {
                total_files: *total_files,
                total_bytes: *total_bytes,
            },
            UploadProgress::FileStarted {
                current_file,
                total_files,
                processed_files,
                processed_bytes,
                total_bytes,
                path,
            } => UploadProgress::FileStarted {
                current_file: *current_file,
                total_files: *total_files,
                processed_files: *processed_files,
                processed_bytes: *processed_bytes,
                total_bytes: *total_bytes,
                path: path.clone(),
            },
            UploadProgress::FileProgress {
                current_file,
                total_files,
                processed_files,
                processed_bytes,
                total_bytes,
                path,
            } => UploadProgress::FileProgress {
                current_file: *current_file,
                total_files: *total_files,
                processed_files: *processed_files,
                processed_bytes: *processed_bytes,
                total_bytes: *total_bytes,
                path: path.clone(),
            },
            UploadProgress::FileFinished {
                processed_files,
                total_files,
                processed_bytes,
                total_bytes,
                path,
            } => UploadProgress::FileFinished {
                processed_files: *processed_files,
                total_files: *total_files,
                processed_bytes: *processed_bytes,
                total_bytes: *total_bytes,
                path: path.clone(),
            },
            UploadProgress::Finished { total_files, total_bytes } => UploadProgress::Finished {
                total_files: *total_files,
                total_bytes: *total_bytes,
            },
        }
    }
}

} // verus!
