//! Which settings are accepted, and what they come to.
use vstd::prelude::*;
use vstd::string::*;

use crate::delay::duration_nanos;
use crate::error::ErrorView;
use crate::lambda::{
    asked_settings, clamped_workers, memory_workers, payload_error, put_slots, InvokePayload,
};
use crate::options::{
    source_get_slots, window_capacity, AdaptiveSourceWindow, ComparisonMode, ConflictPolicy,
    DestinationCleanup, LocalZipSyncOptions, PutRetryPolicy, S3PrefixUploadOptions,
    S3ZipLocalUnzipOptions, SyncOptions,
};
use crate::report::{ObjectReportView, OperationStatus};
use crate::s3_uri::{list_prefix, object_parts, prefix_parts};
use crate::sync_run::conflict_error;
use crate::text::{find_char, lemma_find_char, starts_with_spec, trim_leading};
use crate::text_laws::law_trimming_takes_off_the_run;
use crate::validate::{
    local_zip_sync_problem, s3_prefix_upload_problem, s3_zip_local_problem, source_range_problem,
    sync_problem,
};

verus! {

/// Whether buffers hold something, and no more than is allowed: chunks of up to
/// 16 MiB and pipes of up to 64 MiB.
pub open spec fn are_buffers(body_chunk_size: usize, pipe_capacity: usize) -> bool {
    0 < body_chunk_size <= 16 * 1024 * 1024 && 0 < pipe_capacity <= 64 * 1024 * 1024
}

/// Whether extra objects are deleted only under a prefix, and only where everything
/// in the ZIP is extracted.
pub open spec fn is_scoped(
    cleanup: DestinationCleanup,
    prefix: Seq<char>,
    selection: Seq<Seq<char>>,
) -> bool {
    cleanup == DestinationCleanup::DeleteExtra ==> prefix.len() > 0 && selection.len() == 0
}

/// Whether attempts are allowed, and no delay starts over its limit.
pub open spec fn is_retry_policy(policy: PutRetryPolicy) -> bool {
    &&& policy.max_attempts > 0
    &&& duration_nanos(policy.base_delay) <= duration_nanos(policy.max_delay)
    &&& duration_nanos(policy.slowdown_base_delay) <= duration_nanos(policy.slowdown_max_delay)
}

/// Settings are accepted exactly where work can be done with them: all limits are
/// positive, buffers are of an allowed size, retries make sense, and cleanup is
/// scoped.
pub proof fn law_settings_that_are_accepted(
    options: SyncOptions,
    local: LocalZipSyncOptions,
    unzip: S3ZipLocalUnzipOptions,
)
    ensures
        sync_problem(options) is None <==> {
            &&& is_scoped(options.cleanup, options.destination.prefix@, options.selection@)
            &&& options.concurrency > 0
            &&& options.put_concurrency > 0
            &&& is_retry_policy(options.put_retry_policy)
            &&& options.source_block_size > 0
            &&& options.source_get_concurrency > 0
            &&& are_buffers(options.body_chunk_size, options.pipe_capacity)
        },
        local_zip_sync_problem(local) is None <==> {
            &&& is_scoped(local.cleanup, local.destination.prefix@, local.selection@)
            &&& local.concurrency > 0
            &&& are_buffers(local.body_chunk_size, local.pipe_capacity)
        },
        s3_zip_local_problem(unzip) is None <==> unzip.concurrency > 0
            && unzip.source_get_concurrency > 0 && unzip.source_block_size > 0,
{
}

/// A block fits a window exactly where the block, or the whole source if that is
/// smaller, is not larger than the window. A window of zero has no limit.
pub proof fn law_blocks_fit_their_window(block: usize, window: usize, source: u64)
    ensures
        source_range_problem(block, window, source) is None <==> window == 0 || block <= window
            || source <= window,
{
}

/// An archive is never one of the objects that go into it.
pub proof fn law_archive_lies_outside_its_source(options: S3PrefixUploadOptions)
    requires
        are_buffers(options.body_chunk_size, options.pipe_capacity),
    ensures
        s3_prefix_upload_problem(options) is Some <==> {
            let listed = list_prefix(options.source.prefix@);
            &&& options.source.bucket@ == options.destination.bucket@
            &&& listed.len() <= options.destination.key@.len()
            &&& options.destination.key@.take(listed.len() as int) == listed
        },
{
}

/// A URI says what it names: the scheme, a bucket without slashes, a slash, and a key
/// or prefix, before which further slashes do not matter. What does not start with
/// the scheme and a bucket is refused, and so is an object without a key.
pub proof fn law_uris_say_what_they_name(uri: Seq<char>)
    ensures
        match object_parts(uri) {
            Ok((bucket, key)) => {
                &&& uri.len() >= 5 + bucket.len() + 1 + key.len()
                &&& uri.take(5) == "s3://"@
                &&& uri.subrange(5, 5 + bucket.len() as int) == bucket
                &&& bucket.len() > 0 && !bucket.contains('/')
                &&& uri[5 + bucket.len() as int] == '/'
                &&& key.len() > 0
                &&& uri.skip(uri.len() - key.len()) == key
                &&& forall|i: int|
                    5 + bucket.len() <= i < uri.len() - key.len() ==> uri[i] == '/'
                &&& key[0] != '/'
            },
            Err(_) => uri.len() < 5 || uri.take(5) != "s3://"@ || find_char(uri.skip(5), '/') == 0
                || forall|i: int|
                5 + find_char(uri.skip(5), '/') <= i < uri.len() ==> uri[i] == '/',
        },
        match prefix_parts(uri) {
            Ok((bucket, prefix)) => {
                &&& uri.take(5) == "s3://"@
                &&& uri.len() >= 5 + bucket.len() + prefix.len()
                &&& uri.subrange(5, 5 + bucket.len() as int) == bucket
                &&& !bucket.contains('/')
                &&& uri.skip(uri.len() - prefix.len()) == prefix
                &&& forall|i: int|
                    5 + bucket.len() <= i < uri.len() - prefix.len() ==> uri[i] == '/'
            },
            Err(_) => uri.len() < 5 || uri.take(5) != "s3://"@ || find_char(uri.skip(5), '/') == 0,
        },
{
    reveal_strlit("s3://");
    if starts_with_spec(uri, "s3://"@) {
        let rest = uri.skip(5);
        lemma_find_char(rest, '/');
        let slash = find_char(rest, '/');
        assert(uri.subrange(5, 5 + slash) =~= rest.take(slash));
        assert forall|i: int| 0 <= i < slash implies rest[i] != '/' by {}
        if slash < rest.len() {
            let tail = rest.skip(slash + 1);
            law_trimming_takes_off_the_run(tail, '/');
            let key = trim_leading(tail, '/');
            assert(uri.skip(uri.len() - key.len()) =~= tail.skip(tail.len() - key.len()));
            assert forall|i: int| 5 + slash <= i < uri.len() - key.len() implies uri[i] == '/' by {
                if i == 5 + slash {
                    assert(rest[slash] == '/');
                } else {
                    assert(tail[i - 6 - slash] == uri[i]);
                }
            }
        } else {
            assert(uri.subrange(5, 5 + slash) =~= rest);
            assert(uri.skip(uri.len() as int) =~= Seq::<char>::empty());
        }
    }
}

/// The number of workers is that asked for, or by memory four times the square root of
/// its multiple of 128 MiB, to the nearest, and always from four to sixteen.
pub proof fn law_workers_follow_the_memory(asked: usize, memory_mb: u64)
    ensures
        clamped_workers(asked) == if asked < 4 {
            4
        } else if asked > 16 {
            16
        } else {
            asked
        },
        ({
            let workers = memory_workers(memory_mb, 4) as int;
            &&& 4 <= workers <= 16
            &&& workers > 4 ==> (2 * workers - 1) * (2 * workers - 1) * 128 <= 64 * memory_mb
            &&& workers < 16 ==> (2 * workers + 1) * (2 * workers + 1) * 128 > 64 * memory_mb
        }),
{
    lemma_workers(memory_mb, 4);
    let w = memory_workers(memory_mb, 4) as int;
    assert(2 * (2 * w - 1) * (2 * w - 1) * 64 == (2 * w - 1) * (2 * w - 1) * 128)
        by (nonlinear_arith);
    assert(2 * (2 * (w + 1) - 1) * (2 * (w + 1) - 1) * 64 == (2 * w + 1) * (2 * w + 1) * 128)
        by (nonlinear_arith);
}

proof fn lemma_workers(memory_mb: u64, workers: usize)
    requires
        4 <= workers <= 16,
        workers > 4 ==> 2 * (2 * workers - 1) * (2 * workers - 1) <= memory_mb,
    ensures
        ({
            let found = memory_workers(memory_mb, workers) as int;
            &&& workers <= found <= 16
            &&& found > 4 ==> 2 * (2 * found - 1) * (2 * found - 1) <= memory_mb
            &&& found < 16 ==> 2 * (2 * (found + 1) - 1) * (2 * (found + 1) - 1) > memory_mb
        }),
    decreases 16 - workers,
{
    if workers < 16 && crate::lambda::affords(memory_mb, workers + 1) {
        lemma_workers(memory_mb, (workers + 1) as usize);
    }
}

/// Writes keep up with reads: there are as many as source reads, at least two, where
/// the workers and the limit of eight allow it.
pub proof fn law_writes_keep_up_with_reads(workers: usize, reads: usize)
    requires
        workers > 0,
    ensures
        2 <= reads <= 8 && reads <= workers ==> put_slots(workers, reads) == reads,
        reads < 2 && workers >= 2 ==> put_slots(workers, reads) == 2,
        workers <= 8 && workers <= reads ==> put_slots(workers, reads) == workers,
        workers >= 8 && reads >= 8 ==> put_slots(workers, reads) == 8,
{
}

/// Source reads grow by one for each 256 MiB, from one to eight.
pub proof fn law_reads_follow_the_memory(memory_mb: u64)
    ensures
        1 <= source_get_slots(memory_mb) <= 8,
        memory_mb < 512 ==> source_get_slots(memory_mb) == 1,
        memory_mb >= 2048 ==> source_get_slots(memory_mb) == 8,
        256 <= memory_mb < 2048 ==> source_get_slots(memory_mb) * 256 <= memory_mb < (
        source_get_slots(memory_mb) + 1) * 256,
{
}

/// With memory to spare the window holds the whole source, up to its limits.
pub proof fn law_window_uses_the_memory(window: AdaptiveSourceWindow)
    requires
        window.available_memory_mb * 1024 * 1024 <= u64::MAX,
        window.source_zip_bytes <= 512 * 1024 * 1024,
        crate::options::reserved_bytes(window) + window.source_zip_bytes
            <= window.available_memory_mb * 1024 * 1024,
    ensures
        window_capacity(window) == window.source_zip_bytes,
{
}

/// An invocation gets what it asks for: deletions, diagnostics, operations and
/// comparison by content only where they are asked for, and the source and destination
/// that it names.
pub proof fn law_invocation_gets_what_it_asks_for(
    payload: InvokePayload,
    workers: usize,
    options: SyncOptions,
)
    requires
        asked_settings(payload, workers, options),
    ensures
        options.cleanup == DestinationCleanup::DeleteExtra <==> payload.delete_extra,
        options.comparison == ComparisonMode::HashEntries <==> payload.ignore_embedded_catalog,
        options.collect_diagnostics == payload.diagnostics,
        options.collect_operations == payload.include_operations,
        options.conflict_policy == ConflictPolicy::ReportAndContinue,
        options.concurrency == workers,
        options.selection@.len() == 0,
        object_parts(payload.source@) == Ok::<(Seq<char>, Seq<char>), Seq<char>>(
            (options.source.bucket@, options.source.key@),
        ),
        prefix_parts(payload.destination_prefix@) == Ok::<(Seq<char>, Seq<char>), Seq<char>>(
            (options.destination.bucket@, options.destination.prefix@),
        ),
        payload_error(payload) is None,
{
}

/// A conflict ends a run exactly where conflicts are to end it, and names the object.
pub proof fn law_conflicts_end_runs_that_fail_fast(
    bucket: Seq<char>,
    operation: ObjectReportView,
    fail_fast: bool,
)
    ensures
        match conflict_error(bucket, operation, fail_fast) {
            Some(error) => {
                &&& fail_fast
                &&& operation.status == OperationStatus::ConditionalConflict
                &&& match error {
                    ErrorView::ConditionalConflict { bucket: named, key, message } => named
                        == bucket && key == operation.key && (operation.message is Some
                        ==> message == operation.message->Some_0),
                    _ => false,
                }
            },
            None => !fail_fast || operation.status != OperationStatus::ConditionalConflict,
        },
{
}

} // verus!
