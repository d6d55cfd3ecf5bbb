//! Settings of an extraction that runs in a Lambda function.
use vstd::prelude::*;
use vstd::string::*;

use crate::error::{ErrorView, Result};
use crate::options::{
    adaptive_source_get_concurrency, ComparisonMode, ConflictPolicy, DestinationCleanup,
    SyncOptions,
};
use crate::report::{ObjectReport, SyncDiagnostics, SyncReport, SyncSummary};
use crate::s3_uri::{object_parts, prefix_parts, S3Object, S3Prefix};

verus! {

pub const MIN_LAMBDA_CONCURRENCY: usize = 4;

pub const MAX_LAMBDA_CONCURRENCY: usize = 16;

/// What an invocation asks for.
#[derive(Debug)]
pub struct InvokePayload {
    pub source: String,
    pub destination_prefix: String,
    pub delete_extra: bool,
    pub diagnostics: bool,
    pub concurrency: Option<usize>,
    pub ignore_embedded_catalog: bool,
    pub include_operations: bool,
}

/// What an invocation answers.
#[derive(Debug)]
pub struct InvokeResponse {
    pub source: S3Object,
    pub destination: S3Prefix,
    pub summary: SyncSummary,
    pub diagnostics: Option<SyncDiagnostics>,
    pub operations: Option<Vec<ObjectReport>>,
}

/// A number of workers within the limits.
pub open spec fn clamped_workers(workers: usize) -> usize {
    if workers < MIN_LAMBDA_CONCURRENCY {
        MIN_LAMBDA_CONCURRENCY
    } else if workers > MAX_LAMBDA_CONCURRENCY {
        MAX_LAMBDA_CONCURRENCY
    } else {
        workers
    }
}

/// Brings a number of workers within the limits.
pub fn clamp_lambda_concurrency(workers: usize) -> (clamped: usize)
    ensures
        clamped == clamped_workers(workers),
{
    if workers < MIN_LAMBDA_CONCURRENCY {
        MIN_LAMBDA_CONCURRENCY
    } else if workers > MAX_LAMBDA_CONCURRENCY {
        MAX_LAMBDA_CONCURRENCY
    } else {
        workers
    }
}

/// Whether `workers - 1/2` is at most `4 * sqrt(memory_mb / 128)`, that is,
/// whether that number rounds to `workers` or more.
pub open spec fn affords(memory_mb: u64, workers: int) -> bool {
    2 * (2 * workers - 1) * (2 * workers - 1) <= memory_mb
}

/// The number of workers for an amount of memory: `4 * sqrt(memory_mb / 128)`
/// rounded to the nearest number, halves up, and brought within the limits.
pub open spec fn memory_workers(memory_mb: u64, workers: usize) -> usize
    decreases MAX_LAMBDA_CONCURRENCY - workers,
{
    if workers < MAX_LAMBDA_CONCURRENCY && affords(memory_mb, workers + 1) {
        memory_workers(memory_mb, (workers + 1) as usize)
    } else {
        workers
    }
}

/// The number of workers for an amount of memory, in MiB.
pub fn adaptive_lambda_concurrency(memory_mb: u64) -> (workers: usize)
    ensures
        workers == memory_workers(memory_mb, MIN_LAMBDA_CONCURRENCY),
        MIN_LAMBDA_CONCURRENCY <= workers <= MAX_LAMBDA_CONCURRENCY,
        workers > MIN_LAMBDA_CONCURRENCY ==> affords(memory_mb, workers as int),
        workers < MAX_LAMBDA_CONCURRENCY ==> !affords(memory_mb, workers + 1),
{
    let mut workers: usize = MIN_LAMBDA_CONCURRENCY;
    while workers < MAX_LAMBDA_CONCURRENCY
        invariant_except_break
            memory_workers(memory_mb, workers) == memory_workers(memory_mb, MIN_LAMBDA_CONCURRENCY),
        invariant
            MIN_LAMBDA_CONCURRENCY <= workers <= MAX_LAMBDA_CONCURRENCY,
            workers > MIN_LAMBDA_CONCURRENCY ==> affords(memory_mb, workers as int),
        ensures
            workers == memory_workers(memory_mb, MIN_LAMBDA_CONCURRENCY),
            workers < MAX_LAMBDA_CONCURRENCY ==> !affords(memory_mb, workers + 1),
        decreases MAX_LAMBDA_CONCURRENCY - workers,
    {
        let odd: u64 = 2 * workers as u64 + 1;
        assert(odd * odd <= 31 * 31) by (nonlinear_arith)
            requires
                0 <= odd <= 31,
        ;
        assert(2 * (odd * odd) == 2 * (2 * (workers + 1) - 1) * (2 * (workers + 1) - 1))
            by (nonlinear_arith)
            requires
                odd == 2 * workers + 1,
        ;
        if 2 * (odd * odd) > memory_mb {
            break;
        }
        workers += 1;
    }
    workers
}

/// The number of destination writes in flight: no more than the workers, and
/// as many as the source reads, but at least two and at most eight.
pub open spec fn put_slots(entry_workers: usize, source_get_concurrency: usize) -> usize {
    let reads = if source_get_concurrency < 2 {
        2
    } else {
        source_get_concurrency
    };
    let slots = if entry_workers < reads {
        entry_workers
    } else {
        reads
    };
    if slots < 1 {
        1
    } else if slots > 8 {
        8
    } else {
        slots
    }
}

/// The number of destination writes in flight.
pub fn adaptive_lambda_put_concurrency(entry_workers: usize, source_get_concurrency: usize) -> (slots:
    usize)
    ensures
        slots == put_slots(entry_workers, source_get_concurrency),
{
    let reads: usize = if source_get_concurrency < 2 {
        2
    } else {
        source_get_concurrency
    };
    let slots: usize = if entry_workers < reads {
        entry_workers
    } else {
        reads
    };
    if slots < 1 {
        1
    } else if slots > 8 {
        8
    } else {
        slots
    }
}

/// The settings that a payload asks for, with a number of workers.
pub open spec fn asked_settings(payload: InvokePayload, concurrency: usize, options: SyncOptions) -> bool {
    &&& Ok::<(Seq<char>, Seq<char>), Seq<char>>((options.source.bucket@, options.source.key@))
        == object_parts(payload.source@)
    &&& Ok::<(Seq<char>, Seq<char>), Seq<char>>(
        (options.destination.bucket@, options.destination.prefix@),
    ) == prefix_parts(payload.destination_prefix@)
    &&& options.cleanup == if payload.delete_extra {
        DestinationCleanup::DeleteExtra
    } else {
        DestinationCleanup::KeepExtra
    }
    &&& options.selection@ == Seq::<Seq<char>>::empty()
    &&& options.collect_diagnostics == payload.diagnostics
    &&& options.comparison == if payload.ignore_embedded_catalog {
        ComparisonMode::HashEntries
    } else {
        ComparisonMode::CatalogThenHash
    }
    &&& options.conflict_policy == ConflictPolicy::ReportAndContinue
    &&& options.collect_operations == payload.include_operations
    &&& options.concurrency == concurrency
}

/// The settings that are as a caller has them who asks for nothing.
pub open spec fn default_streaming(options: SyncOptions) -> bool {
    &&& crate::options::is_default_retry_policy(options.put_retry_policy)
    &&& options.source_block_size == crate::constants::DEFAULT_SOURCE_BLOCK_SIZE
    &&& options.source_block_merge_gap == crate::constants::DEFAULT_SOURCE_BLOCK_MERGE_GAP
    &&& options.source_window_capacity == crate::constants::DEFAULT_SOURCE_WINDOW_CAPACITY
    &&& options.body_chunk_size == crate::constants::DEFAULT_BODY_CHUNK_SIZE
    &&& options.pipe_capacity == crate::constants::DEFAULT_PIPE_CAPACITY
}

/// The error of a payload: that of its source, or else of its destination.
pub open spec fn payload_error(payload: InvokePayload) -> Option<ErrorView> {
    match object_parts(payload.source@) {
        Err(reason) => Some(ErrorView::InvalidS3Uri { uri: payload.source@, reason }),
        Ok(_) => match prefix_parts(payload.destination_prefix@) {
            Err(reason) => Some(
                ErrorView::InvalidS3Uri { uri: payload.destination_prefix@, reason },
            ),
            Ok(_) => None,
        },
    }
}

impl InvokePayload {
    /// The options that the payload asks for, with a number of workers.
    pub fn into_options(self, concurrency: usize) -> (result: Result<SyncOptions>)
        ensures
            match payload_error(self) {
                Some(error) => result is Err && result->Err_0@ == error,
                None => {
                    &&& result is Ok
                    &&& asked_settings(self, concurrency, result->Ok_0)
                    &&& default_streaming(result->Ok_0)
                    &&& result->Ok_0.put_concurrency == crate::constants::DEFAULT_PUT_CONCURRENCY
                    &&& result->Ok_0.source_get_concurrency
                        == crate::constants::DEFAULT_SOURCE_GET_CONCURRENCY
                    &&& result->Ok_0.source_window_memory_budget_mb is None
                },
            },
    {
        let source = match S3Object::parse(&self.source) {
            Ok(source) => source,
            Err(error) => return Err(error),
        };
        let destination = match S3Prefix::parse(&self.destination_prefix) {
            Ok(destination) => destination,
            Err(error) => return Err(error),
        };
        let mut options = SyncOptions::new(source, destination);
        if self.delete_extra {
            options.cleanup = DestinationCleanup::DeleteExtra;
        }
        options.collect_diagnostics = self.diagnostics;
        options.concurrency = concurrency;
        if self.ignore_embedded_catalog {
            options.comparison = ComparisonMode::HashEntries;
        }
        options.collect_operations = self.include_operations;
        Ok(options)
    }

    /// The number of workers: as asked for, within the limits, or as the
    /// memory affords.
    pub fn workers(&self, memory_mb: u64) -> (workers: usize)
        ensures
            workers == match self.concurrency {
                Some(asked) => clamped_workers(asked),
                None => memory_workers(memory_mb, MIN_LAMBDA_CONCURRENCY),
            },
            MIN_LAMBDA_CONCURRENCY <= workers <= MAX_LAMBDA_CONCURRENCY,
    {
        match self.concurrency {
            Some(asked) => clamp_lambda_concurrency(asked),
            None => adaptive_lambda_concurrency(memory_mb),
        }
    }
}

/// Prepares the options of an invocation for an amount of memory, in MiB.
pub fn invoke_options(payload: InvokePayload, memory_mb: u64) -> (result: Result<SyncOptions>)
    ensures
        match payload_error(payload) {
            Some(error) => result is Err && result->Err_0@ == error,
            None => {
                let options = result->Ok_0;
                let workers = match payload.concurrency {
                    Some(asked) => clamped_workers(asked),
                    None => memory_workers(memory_mb, MIN_LAMBDA_CONCURRENCY),
                };
                &&& result is Ok
                &&& asked_settings(payload, workers, options)
                &&& default_streaming(options)
                &&& options.source_get_concurrency == crate::options::source_get_slots(memory_mb)
                &&& options.put_concurrency == put_slots(
                    workers,
                    options.source_get_concurrency,
                )
                &&& options.source_window_memory_budget_mb == Some(memory_mb)
            },
        },
{
    let concurrency: usize = payload.workers(memory_mb);
    let mut options = match payload.into_options(concurrency) {
        Ok(options) => options,
        Err(error) => return Err(error),
    };
    options.source_get_concurrency = adaptive_source_get_concurrency(memory_mb);
    options.put_concurrency =
    adaptive_lambda_put_concurrency(options.concurrency, options.source_get_concurrency);
    options.source_window_memory_budget_mb = Some(memory_mb);
    Ok(options)
}

impl InvokeResponse {
    /// The answer that a report gives. Operations are left out unless asked for.
    pub fn from_sync_report(report: SyncReport, include_operations: bool) -> (response:
        InvokeResponse)
        ensures
            response == (InvokeResponse {
                source: report.source,
                destination: report.destination,
                summary: report.summary,
                diagnostics: report.diagnostics,
                operations: if include_operations {
                    Some(report.operations)
                } else {
                    None
                },
            }),
    {
        let operations = if include_operations {
            Some(report.operations)
        } else {
            None
        };
        InvokeResponse {
            source: report.source,
            destination: report.destination,
            summary: report.summary,
            diagnostics: report.diagnostics,
            operations,
        }
    }
}

proof fn lemma_workers_grow(less: u64, more: u64, workers: usize)
    requires
        less <= more,
    ensures
        workers <= memory_workers(less, workers) <= memory_workers(more, workers),
    decreases MAX_LAMBDA_CONCURRENCY - workers,
{
    if workers < MAX_LAMBDA_CONCURRENCY && affords(more, workers + 1) {
        lemma_workers_grow(less, more, (workers + 1) as usize);
    }
}

/// More memory never means fewer workers.
pub proof fn law_workers_grow_with_memory(less: u64, more: u64)
    requires
        less <= more,
    ensures
        memory_workers(less, MIN_LAMBDA_CONCURRENCY) <= memory_workers(
            more,
            MIN_LAMBDA_CONCURRENCY,
        ),
{
    lemma_workers_grow(less, more, MIN_LAMBDA_CONCURRENCY);
}

/// Writes in flight never outnumber the workers, and there is always one.
pub proof fn law_put_slots_are_bounded(entry_workers: usize, source_get_concurrency: usize)
    ensures
        1 <= put_slots(entry_workers, source_get_concurrency) <= 8,
        entry_workers > 0 ==> put_slots(entry_workers, source_get_concurrency) <= entry_workers,
{
}

} // verus!
