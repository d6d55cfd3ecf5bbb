//! Checks on options before a transfer starts.
use vstd::prelude::*;
use vstd::string::*;

use crate::constants::{MAX_BODY_CHUNK_SIZE, MAX_PIPE_CAPACITY};
use crate::delay::{duration_nanos, shorter};
use crate::error::{Error, ErrorView, Result};
use crate::options::{
    is_default_retry_policy, window_capacity, within_usize, AdaptiveSourceWindow, ConflictPolicy,
    DestinationCleanup, LocalUnzipOptions, LocalZipSyncOptions, PutRetryPolicy,
    S3PrefixUploadOptions, S3ZipLocalUnzipOptions, SyncOptions, UploadOptions,
};
use crate::s3_uri::{
    list_prefix, normalized_list_prefix, object_uri, prefix_uri, S3Prefix,
};
use crate::text::{cat2, cat4, decimal, decimal_spec, starts_with, starts_with_spec, str_eq};

verus! {

fn invalid_option(reason: &str) -> (error: Error)
    ensures
        error@ == ErrorView::InvalidOption(reason@),
{
    Error::InvalidOption(reason.to_owned())
}

/// Whether a result is the option error of a reason, or success without one.
pub open spec fn reports(result: Result<()>, problem: Option<Seq<char>>) -> bool {
    match problem {
        Some(reason) => result is Err && result->Err_0@ == ErrorView::InvalidOption(reason),
        None => result is Ok,
    }
}

/// What is wrong with the buffers of a stream.
pub open spec fn stream_problem(body_chunk_size: usize, pipe_capacity: usize) -> Option<Seq<char>> {
    if body_chunk_size == 0 {
        Some("body_chunk_size must be greater than zero"@)
    } else if body_chunk_size > MAX_BODY_CHUNK_SIZE {
        Some(
            "body_chunk_size must be less than or equal to "@ + decimal_spec(
                MAX_BODY_CHUNK_SIZE as nat,
            ),
        )
    } else if pipe_capacity == 0 {
        Some("pipe_capacity must be greater than zero"@)
    } else if pipe_capacity > MAX_PIPE_CAPACITY {
        Some(
            "pipe_capacity must be less than or equal to "@ + decimal_spec(
                MAX_PIPE_CAPACITY as nat,
            ),
        )
    } else {
        None
    }
}

/// Checks the buffer sizes of a stream.
pub fn validate_upload_stream_options(body_chunk_size: usize, pipe_capacity: usize) -> (result:
    Result<()>)
    ensures
        reports(result, stream_problem(body_chunk_size, pipe_capacity)),
{
    if body_chunk_size == 0 {
        return Err(invalid_option("body_chunk_size must be greater than zero"));
    }
    if body_chunk_size > MAX_BODY_CHUNK_SIZE {
        return Err(
            invalid_option(
                &cat2(
                    "body_chunk_size must be less than or equal to ",
                    &decimal(MAX_BODY_CHUNK_SIZE as u64),
                ),
            ),
        );
    }
    if pipe_capacity == 0 {
        return Err(invalid_option("pipe_capacity must be greater than zero"));
    }
    if pipe_capacity > MAX_PIPE_CAPACITY {
        return Err(
            invalid_option(
                &cat2(
                    "pipe_capacity must be less than or equal to ",
                    &decimal(MAX_PIPE_CAPACITY as u64),
                ),
            ),
        );
    }
    Ok(())
}

/// What is wrong with deleting extra objects.
///
/// A bucket root is never swept, and objects outside a selection are not extra.
pub open spec fn cleanup_problem(
    cleanup: DestinationCleanup,
    prefix: Seq<char>,
    selection: Seq<Seq<char>>,
) -> Option<Seq<char>> {
    if cleanup == DestinationCleanup::DeleteExtra && prefix.len() == 0 {
        Some("delete_extra_objects requires a non-empty destination prefix"@)
    } else if cleanup == DestinationCleanup::DeleteExtra && selection.len() > 0 {
        Some("delete_extra_objects cannot be combined with a selection"@)
    } else {
        None
    }
}

fn validate_cleanup(
    cleanup: DestinationCleanup,
    prefix: &str,
    selection: &crate::selection::UnzipSelection,
) -> (result: Result<()>)
    ensures
        reports(result, cleanup_problem(cleanup, prefix@, selection@)),
{
    if cleanup.deletes_extra() && prefix.is_empty() {
        return Err(invalid_option("delete_extra_objects requires a non-empty destination prefix"));
    }
    if cleanup.deletes_extra() && !selection.is_empty() {
        return Err(invalid_option("delete_extra_objects cannot be combined with a selection"));
    }
    Ok(())
}

/// What is wrong with a retry policy.
pub open spec fn retry_policy_problem(policy: PutRetryPolicy) -> Option<Seq<char>> {
    if policy.max_attempts == 0 {
        Some("put_retry_policy.max_attempts must be greater than zero"@)
    } else if duration_nanos(policy.max_delay) < duration_nanos(policy.base_delay) {
        Some("put_retry_policy.max_delay must be greater than or equal to base_delay"@)
    } else if duration_nanos(policy.slowdown_max_delay) < duration_nanos(
        policy.slowdown_base_delay,
    ) {
        Some(
            "put_retry_policy.slowdown_max_delay must be greater than or equal to slowdown_base_delay"@,
        )
    } else {
        None
    }
}

/// Checks a retry policy.
pub fn validate_put_retry_policy(policy: &PutRetryPolicy) -> (result: Result<()>)
    ensures
        reports(result, retry_policy_problem(*policy)),
{
    if policy.max_attempts == 0 {
        return Err(invalid_option("put_retry_policy.max_attempts must be greater than zero"));
    }
    if shorter(policy.max_delay, policy.base_delay) {
        return Err(
            invalid_option(
                "put_retry_policy.max_delay must be greater than or equal to base_delay",
            ),
        );
    }
    if shorter(policy.slowdown_max_delay, policy.slowdown_base_delay) {
        return Err(
            invalid_option(
                "put_retry_policy.slowdown_max_delay must be greater than or equal to slowdown_base_delay",
            ),
        );
    }
    Ok(())
}

/// What is wrong with the options of an extraction from S3 to S3.
pub open spec fn sync_problem(options: SyncOptions) -> Option<Seq<char>> {
    if cleanup_problem(options.cleanup, options.destination.prefix@, options.selection@) is Some {
        cleanup_problem(options.cleanup, options.destination.prefix@, options.selection@)
    } else if options.concurrency == 0 {
        Some("concurrency must be greater than zero"@)
    } else if options.put_concurrency == 0 {
        Some("put_concurrency must be greater than zero"@)
    } else if retry_policy_problem(options.put_retry_policy) is Some {
        retry_policy_problem(options.put_retry_policy)
    } else if options.source_block_size == 0 {
        Some("source_block_size must be greater than zero"@)
    } else if options.source_get_concurrency == 0 {
        Some("source_get_concurrency must be greater than zero"@)
    } else {
        stream_problem(options.body_chunk_size, options.pipe_capacity)
    }
}

/// Checks the options of an extraction from S3 to S3.
pub fn validate_options(options: &SyncOptions) -> (result: Result<()>)
    ensures
        reports(result, sync_problem(*options)),
{
    if let Err(error) = validate_cleanup(
        options.cleanup,
        &options.destination.prefix,
        &options.selection,
    ) {
        return Err(error);
    }
    if options.concurrency == 0 {
        return Err(invalid_option("concurrency must be greater than zero"));
    }
    if options.put_concurrency == 0 {
        return Err(invalid_option("put_concurrency must be greater than zero"));
    }
    if let Err(error) = validate_put_retry_policy(&options.put_retry_policy) {
        return Err(error);
    }
    if options.source_block_size == 0 {
        return Err(invalid_option("source_block_size must be greater than zero"));
    }
    if options.source_get_concurrency == 0 {
        return Err(invalid_option("source_get_concurrency must be greater than zero"));
    }
    validate_upload_stream_options(options.body_chunk_size, options.pipe_capacity)
}

/// What is wrong with a block size for a window and a source.
pub open spec fn source_range_problem(
    source_block_size: usize,
    source_window_capacity: usize,
    source_zip_bytes: u64,
) -> Option<Seq<char>> {
    if source_window_capacity != 0 && source_block_size > source_window_capacity
        && source_zip_bytes > source_window_capacity {
        Some(
            "source_block_size must be less than or equal to source_window_capacity after clamping to the source ZIP size"@,
        )
    } else {
        None
    }
}

fn validate_source_range(
    source_block_size: usize,
    source_window_capacity: usize,
    source_zip_bytes: u64,
) -> (result: Result<()>)
    ensures
        reports(
            result,
            source_range_problem(source_block_size, source_window_capacity, source_zip_bytes),
        ),
{
    let block: u64 = source_block_size as u64;
    let effective: u64 = if block < source_zip_bytes {
        block
    } else {
        source_zip_bytes
    };
    if source_window_capacity != 0 && effective > source_window_capacity as u64 {
        return Err(
            invalid_option(
                "source_block_size must be less than or equal to source_window_capacity after clamping to the source ZIP size",
            ),
        );
    }
    Ok(())
}

/// Checks that a block of the source fits in the window.
pub fn validate_source_range_options(options: &SyncOptions, source_zip_bytes: u64) -> (result:
    Result<()>)
    ensures
        reports(
            result,
            source_range_problem(
                options.source_block_size,
                options.source_window_capacity,
                source_zip_bytes,
            ),
        ),
{
    validate_source_range(
        options.source_block_size,
        options.source_window_capacity,
        source_zip_bytes,
    )
}

/// The capacity that a memory budget gives the source block window.
pub open spec fn budget_capacity(
    memory_mb: u64,
    source_zip_bytes: u64,
    zip_file_count: usize,
    concurrency: usize,
    source_block_size: usize,
    source_get_concurrency: usize,
) -> usize {
    within_usize(
        window_capacity(
            AdaptiveSourceWindow {
                available_memory_mb: memory_mb,
                source_zip_bytes,
                zip_file_count,
                concurrency,
                source_block_size,
                source_get_concurrency,
            },
        ),
    )
}

/// Derives the window capacity from the memory budget, where there is one.
pub fn resolve_source_window_capacity(
    options: &mut SyncOptions,
    source_zip_bytes: u64,
    zip_file_count: usize,
)
    ensures
        *final(options) == (SyncOptions {
            source_window_capacity: match old(options).source_window_memory_budget_mb {
                Some(memory_mb) => budget_capacity(
                    memory_mb,
                    source_zip_bytes,
                    zip_file_count,
                    old(options).concurrency,
                    old(options).source_block_size,
                    old(options).source_get_concurrency,
                ),
                None => old(options).source_window_capacity,
            },
            ..*old(options)
        }),
{
    if let Some(memory_mb) = options.source_window_memory_budget_mb {
        let window = AdaptiveSourceWindow::new(memory_mb, source_zip_bytes, zip_file_count)
            .with_concurrency(options.concurrency)
            .with_source_block_size(options.source_block_size)
            .with_source_get_concurrency(options.source_get_concurrency);
        options.source_window_capacity = window.capacity();
    }
}

/// What is wrong with the options of an extraction from a local ZIP to S3.
pub open spec fn local_zip_sync_problem(options: LocalZipSyncOptions) -> Option<Seq<char>> {
    if stream_problem(options.body_chunk_size, options.pipe_capacity) is Some {
        stream_problem(options.body_chunk_size, options.pipe_capacity)
    } else if cleanup_problem(options.cleanup, options.destination.prefix@, options.selection@)
        is Some {
        cleanup_problem(options.cleanup, options.destination.prefix@, options.selection@)
    } else if options.concurrency == 0 {
        Some("concurrency must be greater than zero"@)
    } else {
        None
    }
}

/// Checks the options of an extraction from a local ZIP to S3.
pub fn validate_local_zip_sync_options(options: &LocalZipSyncOptions) -> (result: Result<()>)
    ensures
        reports(result, local_zip_sync_problem(*options)),
{
    if let Err(error) = validate_upload_stream_options(
        options.body_chunk_size,
        options.pipe_capacity,
    ) {
        return Err(error);
    }
    if let Err(error) = validate_cleanup(
        options.cleanup,
        &options.destination.prefix,
        &options.selection,
    ) {
        return Err(error);
    }
    if options.concurrency == 0 {
        return Err(invalid_option("concurrency must be greater than zero"));
    }
    Ok(())
}

/// Checks the options of an extraction from a local ZIP to a directory.
pub fn validate_local_unzip_options(options: &LocalUnzipOptions) -> (result: Result<()>)
    ensures
        reports(
            result,
            if options.concurrency == 0 {
                Some("concurrency must be greater than zero"@)
            } else {
                None
            },
        ),
{
    if options.concurrency == 0 {
        return Err(invalid_option("concurrency must be greater than zero"));
    }
    Ok(())
}

/// What is wrong with the options of an extraction from S3 to a directory.
pub open spec fn s3_zip_local_problem(options: S3ZipLocalUnzipOptions) -> Option<Seq<char>> {
    if options.concurrency == 0 {
        Some("concurrency must be greater than zero"@)
    } else if options.source_get_concurrency == 0 {
        Some("source_get_concurrency must be greater than zero"@)
    } else if options.source_block_size == 0 {
        Some("source_block_size must be greater than zero"@)
    } else {
        None
    }
}

/// Checks the options of an extraction from S3 to a directory.
pub fn validate_s3_zip_local_unzip_options(options: &S3ZipLocalUnzipOptions) -> (result: Result<()>)
    ensures
        reports(result, s3_zip_local_problem(*options)),
{
    if options.concurrency == 0 {
        return Err(invalid_option("concurrency must be greater than zero"));
    }
    if options.source_get_concurrency == 0 {
        return Err(invalid_option("source_get_concurrency must be greater than zero"));
    }
    if options.source_block_size == 0 {
        return Err(invalid_option("source_block_size must be greater than zero"));
    }
    Ok(())
}

/// Checks that a block of the source fits in the window.
pub fn validate_s3_zip_local_source_range_options(
    options: &S3ZipLocalUnzipOptions,
    source_len: u64,
) -> (result: Result<()>)
    ensures
        reports(
            result,
            source_range_problem(
                options.source_block_size,
                options.source_window_capacity,
                source_len,
            ),
        ),
{
    let sync = local_unzip_source_sync_options(options);
    validate_source_range_options(&sync, source_len)
}

/// Derives the window capacity from the memory budget, where there is one.
pub fn resolve_s3_zip_local_window_capacity(
    options: &mut S3ZipLocalUnzipOptions,
    source_zip_bytes: u64,
    zip_file_count: usize,
)
    ensures
        *final(options) == (S3ZipLocalUnzipOptions {
            source_window_capacity: match old(options).source_window_memory_budget_mb {
                Some(memory_mb) => budget_capacity(
                    memory_mb,
                    source_zip_bytes,
                    zip_file_count,
                    old(options).concurrency,
                    old(options).source_block_size,
                    old(options).source_get_concurrency,
                ),
                None => old(options).source_window_capacity,
            },
            ..*old(options)
        }),
{
    if let Some(memory_mb) = options.source_window_memory_budget_mb {
        let window = AdaptiveSourceWindow::new(memory_mb, source_zip_bytes, zip_file_count)
            .with_concurrency(options.concurrency)
            .with_source_block_size(options.source_block_size)
            .with_source_get_concurrency(options.source_get_concurrency);
        options.source_window_capacity = window.capacity();
    }
}

/// The source side of an extraction to a directory, as options of an
/// extraction to S3 with a placeholder destination.
pub fn local_unzip_source_sync_options(options: &S3ZipLocalUnzipOptions) -> (sync: SyncOptions)
    ensures
        sync.source.bucket@ == options.source.bucket@,
        sync.source.key@ == options.source.key@,
        sync.destination.bucket@ == "__local__"@,
        sync.destination.prefix@ == Seq::<char>::empty(),
        sync.selection@ == options.selection@,
        is_default_retry_policy(sync.put_retry_policy),
        sync == (SyncOptions {
            source: sync.source,
            destination: sync.destination,
            cleanup: DestinationCleanup::KeepExtra,
            selection: sync.selection,
            collect_diagnostics: options.collect_diagnostics,
            comparison: options.comparison,
            conflict_policy: ConflictPolicy::ReportAndContinue,
            collect_operations: options.collect_operations,
            concurrency: options.concurrency,
            put_concurrency: crate::constants::DEFAULT_PUT_CONCURRENCY,
            put_retry_policy: sync.put_retry_policy,
            source_block_size: options.source_block_size,
            source_block_merge_gap: options.source_block_merge_gap,
            source_get_concurrency: options.source_get_concurrency,
            source_window_capacity: options.source_window_capacity,
            source_window_memory_budget_mb: options.source_window_memory_budget_mb,
            body_chunk_size: crate::constants::DEFAULT_BODY_CHUNK_SIZE,
            pipe_capacity: crate::constants::DEFAULT_PIPE_CAPACITY,
        }),
{
    let mut sync = SyncOptions::new(
        options.source.clone(),
        S3Prefix { bucket: "__local__".to_owned(), prefix: String::new() },
    ).with_selection(options.selection.clone());
    sync.collect_diagnostics = options.collect_diagnostics;
    sync.comparison = options.comparison;
    sync.collect_operations = options.collect_operations;
    sync.concurrency = options.concurrency;
    sync.source_block_size = options.source_block_size;
    sync.source_block_merge_gap = options.source_block_merge_gap;
    sync.source_get_concurrency = options.source_get_concurrency;
    sync.source_window_capacity = options.source_window_capacity;
    sync.source_window_memory_budget_mb = options.source_window_memory_budget_mb;
    sync
}

/// Checks the options of zipping a directory to S3.
pub fn validate_upload_options(options: &UploadOptions) -> (result: Result<()>)
    ensures
        reports(result, stream_problem(options.body_chunk_size, options.pipe_capacity)),
{
    validate_upload_stream_options(options.body_chunk_size, options.pipe_capacity)
}

/// What is wrong with the options of zipping an S3 prefix to S3: the archive
/// must not be one of the objects that go into it.
pub open spec fn s3_prefix_upload_problem(options: S3PrefixUploadOptions) -> Option<Seq<char>> {
    let listed = list_prefix(options.source.prefix@);
    if stream_problem(options.body_chunk_size, options.pipe_capacity) is Some {
        stream_problem(options.body_chunk_size, options.pipe_capacity)
    } else if options.source.bucket@ == options.destination.bucket@ && starts_with_spec(
        options.destination.key@,
        listed,
    ) {
        Some(
            "destination "@ + object_uri(options.destination.bucket@, options.destination.key@)
                + " is inside source prefix "@ + prefix_uri(
                options.source.bucket@,
                options.source.prefix@,
            ),
        )
    } else {
        None
    }
}

/// Checks the options of zipping an S3 prefix to S3.
pub fn validate_s3_prefix_upload_options(options: &S3PrefixUploadOptions) -> (result: Result<()>)
    ensures
        reports(result, s3_prefix_upload_problem(*options)),
{
    if let Err(error) = validate_upload_stream_options(
        options.body_chunk_size,
        options.pipe_capacity,
    ) {
        return Err(error);
    }
    if str_eq(&options.source.bucket, &options.destination.bucket) {
        let listed = normalized_list_prefix(&options.source.prefix);
        if starts_with(&options.destination.key, &listed) {
            let reason = cat4(
                "destination ",
                &options.destination.uri(),
                " is inside source prefix ",
                &options.source.uri(),
            );
            return Err(invalid_option(&reason));
        }
    }
    Ok(())
}

/// Accepted extraction options never delete from a bucket root, and never
/// delete what a selection leaves out.
pub proof fn law_accepted_cleanup_is_scoped(options: SyncOptions)
    requires
        sync_problem(options) is None,
        options.cleanup == DestinationCleanup::DeleteExtra,
    ensures
        options.destination.prefix@.len() > 0,
        options.selection@.len() == 0,
{
}

/// Accepted extraction options allow work to be done, and their retry delays
/// do not shrink below their bases.
pub proof fn law_accepted_options_make_progress(options: SyncOptions)
    requires
        sync_problem(options) is None,
    ensures
        options.concurrency > 0,
        options.put_concurrency > 0,
        options.source_block_size > 0,
        options.source_get_concurrency > 0,
        0 < options.body_chunk_size <= MAX_BODY_CHUNK_SIZE,
        0 < options.pipe_capacity <= MAX_PIPE_CAPACITY,
        options.put_retry_policy.max_attempts > 0,
        duration_nanos(options.put_retry_policy.base_delay) <= duration_nanos(
            options.put_retry_policy.max_delay,
        ),
{
}

/// A window that is derived from a memory budget holds a block of the source.
pub proof fn law_budgeted_window_fits_a_block(
    memory_mb: u64,
    source_zip_bytes: u64,
    zip_file_count: usize,
    concurrency: usize,
    source_block_size: usize,
    source_get_concurrency: usize,
)
    ensures
        source_range_problem(
            source_block_size,
            budget_capacity(
                memory_mb,
                source_zip_bytes,
                zip_file_count,
                concurrency,
                source_block_size,
                source_get_concurrency,
            ),
            source_zip_bytes,
        ) is None,
{
}

} // verus!
