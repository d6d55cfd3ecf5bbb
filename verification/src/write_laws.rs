//! What becomes of writes, deletions and listings, and how they are counted.
use std::time::Duration;

use vstd::prelude::*;
use vstd::string::*;

use crate::classify::UploadJobView;
use crate::delay::duration_nanos;
use crate::delete_extra::{
    chunk_keys, chunks_full, delete_message, delete_report, failure_messages, DeleteOutcome,
};
use crate::destination::{are_extra, has_key, DestinationView};
use crate::diagnostics::{progressed, ExtractProgress};
use crate::digest::ExtractDigestView;
use crate::dry_run::{would_delete, would_report, would_upload};
use crate::dry_run_sync::fresh_dry_record;
use crate::error::{ErrorView, IoErrorKind};
use crate::listing::{listed_destination, page_after, ListedView};
use crate::local_sync::{
    accepted_local_put, marker_report, refused_local_put, LocalPutView, MarkerOutcome,
};
use crate::local_zip::LocalEntryView;
use crate::options::{PutRetryPolicy, RetryJitter};
use crate::put::{
    accepted_outcome, backoff_millis, counted_code, failure_code, is_conflict, is_retry_delay,
    is_throttle_code, put_outcome, repeats, request_failure, retry_delay_limit,
    retryable_producer_error, was_throttled, ProducerView, PutAttemptView, PutResultView,
    PutSdkError, SdkErrorKind,
};
use crate::report::{
    counted_all, dry_run_count, dry_run_counted, has_room, status_count, DryRunOperationStatus,
    ObjectReport, ObjectReportView, OperationStatus, SyncSummary, UnzipDryRunSummary,
};
use crate::s3_uri::S3Prefix;
use crate::sync_run::{fresh_record, is_key_set};
use crate::transfer::is_destination_set;
use crate::zip_manifest::ManifestEntryView;

verus! {

/// A write fails its precondition exactly where S3 answers with status 409 or 412,
/// or with one of the two error codes for it.
pub proof fn law_conflicts_are_failed_preconditions(error: PutSdkError)
    ensures
        error.kind == SdkErrorKind::ServiceError && error.status == Some(412u16) ==> is_conflict(
            error,
        ),
        error.kind == SdkErrorKind::ServiceError && error.status == Some(409u16) ==> is_conflict(
            error,
        ),
        error.code is Some && error.code->Some_0@ == "PreconditionFailed"@ ==> is_conflict(error),
        error.code is Some && error.code->Some_0@ == "ConditionalRequestConflict"@ ==> is_conflict(
            error,
        ),
        is_conflict(error) && error.code is None ==> error.status == Some(409u16) || error.status
            == Some(412u16),
{
}

/// Nothing counts as written unless the request succeeded and its whole body was
/// produced, and then it is what was produced.
pub proof fn law_written_means_produced_and_accepted(
    producer: ProducerView,
    error: PutSdkError,
    failure_count: u64,
)
    ensures
        accepted_outcome(producer) is Uploaded <==> producer is Finished,
        producer is Finished ==> accepted_outcome(producer) == PutAttemptView::Uploaded(
            producer->Finished_0,
        ),
        !(accepted_outcome(producer) is ConditionalConflict),
        !(request_failure(error, producer, failure_count) is Uploaded),
        request_failure(error, producer, failure_count) is ConditionalConflict <==> is_conflict(
            error,
        ),
        is_conflict(error) ==> request_failure(error, producer, failure_count)
            == PutAttemptView::ConditionalConflict(error.context@),
        accepted_local_put(producer) is Written <==> producer is Finished,
        producer is Finished ==> accepted_local_put(producer) == LocalPutView::Written(
            producer->Finished_0,
        ),
{
}

/// A request that failed otherwise may be repeated, unless its body can never be
/// produced.
pub proof fn law_failed_requests_may_be_repeated(
    producer: ProducerView,
    error: PutSdkError,
    failure_count: u64,
)
    requires
        !is_conflict(error),
    ensures
        match request_failure(error, producer, failure_count) {
            PutAttemptView::Failed { message, retryable, error_code, failure_count: counted } => {
                &&& retryable == match producer {
                    ProducerView::Finished(_) => true,
                    ProducerView::Unfinished => true,
                    ProducerView::Failed(cause) => retryable_producer_error(cause),
                    ProducerView::Crashed(_) => false,
                }
                &&& error.code is Some ==> error_code == Some(error.code->Some_0@)
                &&& error_code is Some
                &&& counted == failure_count
            },
            _ => false,
        },
{
}

/// A failed write of a local ZIP keeps what was known of it.
pub proof fn law_failed_local_writes_keep_their_message(
    error: PutSdkError,
    digest: Option<ExtractDigestView>,
)
    ensures
        refused_local_put(error, digest) == if is_conflict(error) {
            LocalPutView::Conflict { message: error.context@, digest }
        } else {
            LocalPutView::Failed(error.context@)
        },
{
}

/// A failed attempt is repeated exactly where it may be and attempts are left. What
/// is not repeated comes to what the attempt came to.
pub proof fn law_attempts_go_on_while_they_may(
    policy: PutRetryPolicy,
    attempt: usize,
    result: PutAttemptView,
)
    ensures
        match result {
            PutAttemptView::Uploaded(digest) => !repeats(policy, attempt, result) && put_outcome(
                result,
            ) == PutResultView::Uploaded(digest),
            PutAttemptView::ConditionalConflict(message) => !repeats(policy, attempt, result)
                && put_outcome(result) == PutResultView::ConditionalConflict(message),
            PutAttemptView::Failed { message, retryable, error_code, failure_count } => {
                &&& put_outcome(result) == PutResultView::Failed(message)
                &&& retryable && attempt < policy.max_attempts ==> repeats(policy, attempt, result)
                &&& !retryable || attempt >= policy.max_attempts ==> !repeats(
                    policy,
                    attempt,
                    result,
                )
                &&& was_throttled(result) <==> error_code is Some && is_throttle_code(
                    error_code->Some_0,
                )
            },
        },
{
}

/// The codes with which S3 asks for fewer requests.
pub proof fn law_slowdown_codes(code: Seq<char>)
    ensures
        code == "SlowDown"@ || code == "Throttling"@ || code == "ThrottlingException"@ || code
            == "TooManyRequestsException"@ || code == "RequestLimitExceeded"@ || code
            == "RequestThrottled"@ || code == "RequestThrottledException"@ || code
            == "ProvisionedThroughputExceededException"@ || code == "BandwidthLimitExceeded"@
            ==> is_throttle_code(code),
{
}

/// A delay starts at its base and doubles with each attempt, up to its limit.
pub proof fn law_backoff_doubles(base_ms: u64, max_ms: u64, attempt: usize)
    requires
        attempt < usize::MAX,
    ensures
        backoff_millis(base_ms, max_ms, 0) == if base_ms < max_ms {
            base_ms
        } else {
            max_ms
        },
        backoff_millis(base_ms, max_ms, 1) == backoff_millis(base_ms, max_ms, 0),
        attempt >= 1 ==> backoff_millis(base_ms, max_ms, (attempt + 1) as usize) == if 2
            * backoff_millis(base_ms, max_ms, attempt) < max_ms {
            2 * backoff_millis(base_ms, max_ms, attempt)
        } else {
            max_ms as int
        },
{
    vstd::arithmetic::power2::lemma2_to64();
    assert(base_ms * vstd::arithmetic::power2::pow2(0) == base_ms) by (nonlinear_arith)
        requires
            vstd::arithmetic::power2::pow2(0) == 1,
    ;
    if attempt >= 1 {
        let a = (attempt - 1) as nat;
        vstd::arithmetic::power2::lemma_pow2_unfold(attempt as nat);
        let p = vstd::arithmetic::power2::pow2(a);
        let q = vstd::arithmetic::power2::pow2(attempt as nat);
        assert(base_ms * q == 2 * (base_ms * p)) by (nonlinear_arith)
            requires
                q == 2 * p,
        ;
    }
}

/// A slowdown has delays of its own.
pub proof fn law_slowdowns_have_their_own_delays(policy: PutRetryPolicy, attempt: usize)
    ensures
        retry_delay_limit(policy, attempt, false) == backoff_millis(
            crate::delay::duration_millis(policy.base_delay),
            crate::delay::duration_millis(policy.max_delay),
            attempt,
        ),
        retry_delay_limit(policy, attempt, true) == backoff_millis(
            crate::delay::duration_millis(policy.slowdown_base_delay),
            crate::delay::duration_millis(policy.slowdown_max_delay),
            attempt,
        ),
{
}

/// Whether the object listed at `i` is the last one with a key.
pub open spec fn lists_last(page: Seq<ListedView>, n: int, i: int, key: Seq<char>) -> bool {
    &&& 0 <= i < n
    &&& page[i].key == Some(key)
    &&& forall|k: int| i < k < n ==> (#[trigger] page[k]).key != Some(key)
}

/// Nothing that is listed is overlooked: a key is known exactly where it was before
/// or is listed, with the ETag and the size of the last object that has it.
pub proof fn law_every_listed_object_is_known(
    before: Map<Seq<char>, DestinationView>,
    page: Seq<ListedView>,
    n: int,
    key: Seq<char>,
)
    requires
        0 <= n <= page.len(),
    ensures
        ({
            let after = listed_destination(before, page, n);
            &&& after.contains_key(key) <==> before.contains_key(key) || exists|i: int|
                0 <= i < n && (#[trigger] page[i]).key == Some(key)
            &&& forall|i: int| #[trigger]
                lists_last(page, n, i, key) ==> after[key].etag == page[i].etag && (page[i].size
                    is Some && page[i].size->Some_0 >= 0 ==> after[key].size is Some
                    && after[key].size->Some_0 == page[i].size->Some_0) && (page[i].size is None
                    || page[i].size->Some_0 < 0 ==> after[key].size is None)
            &&& (forall|i: int| 0 <= i < n ==> (#[trigger] page[i]).key != Some(key))
                && before.contains_key(key) ==> after[key] == before[key]
        }),
    decreases n,
{
    if n > 0 {
        law_every_listed_object_is_known(before, page, n - 1, key);
        let middle = listed_destination(before, page, n - 1);
        let after = listed_destination(before, page, n);
        assert forall|i: int| #[trigger] lists_last(page, n, i, key) implies after[key].etag
            == page[i].etag && (page[i].size is Some && page[i].size->Some_0 >= 0
            ==> after[key].size is Some && after[key].size->Some_0 == page[i].size->Some_0) && (
        page[i].size is None || page[i].size->Some_0 < 0 ==> after[key].size is None) by {
            if i < n - 1 {
                assert(lists_last(page, n - 1, i, key));
                assert(page[n - 1].key != Some(key));
                assert(middle.contains_key(key));
            }
        }
        if page[n - 1].key == Some(key) {
            assert(after.contains_key(key));
        }
    }
}

/// A listing goes on exactly where it says so, with the token it gives.
pub proof fn law_cut_off_listing_goes_on(
    source: S3Prefix,
    is_truncated: Option<bool>,
    token: Option<Seq<char>>,
)
    ensures
        match page_after(source, is_truncated, token) {
            Ok(Some(next)) => is_truncated == Some(true) && token == Some(next),
            Ok(None) => is_truncated != Some(true),
            Err(_) => is_truncated == Some(true) && token is None,
        },
{
}

/// How many of the first `n` operations have a status.
pub open spec fn with_status(
    operations: Seq<ObjectReport>,
    status: OperationStatus,
    n: int,
) -> int
    decreases n,
{
    if n <= 0 {
        0
    } else if operations[n - 1].status == status {
        with_status(operations, status, n - 1) + 1
    } else {
        with_status(operations, status, n - 1)
    }
}

/// Every counter of a summary is the number of operations with its status.
pub proof fn law_counters_count_their_status(
    summary: SyncSummary,
    operations: Seq<ObjectReport>,
    n: int,
)
    requires
        0 <= n <= operations.len(),
        has_room(summary, n),
    ensures
        ({
            let after = counted_all(summary, operations, n);
            &&& after.uploaded_new == summary.uploaded_new + with_status(
                operations,
                OperationStatus::UploadedNew,
                n,
            )
            &&& after.uploaded_changed == summary.uploaded_changed + with_status(
                operations,
                OperationStatus::UploadedChanged,
                n,
            )
            &&& after.skipped_unchanged == summary.skipped_unchanged + with_status(
                operations,
                OperationStatus::SkippedUnchanged,
                n,
            )
            &&& after.conditional_conflicts == summary.conditional_conflicts + with_status(
                operations,
                OperationStatus::ConditionalConflict,
                n,
            )
            &&& after.deleted_extra == summary.deleted_extra + with_status(
                operations,
                OperationStatus::DeletedExtra,
                n,
            )
            &&& after.errors == summary.errors + with_status(
                operations,
                OperationStatus::Error,
                n,
            )
            &&& after.zip_files == summary.zip_files
            &&& after.destination_objects == summary.destination_objects
        }),
    decreases n,
{
    if n > 0 {
        assert forall|status: OperationStatus| #[trigger]
            status_count(summary, status) + (n - 1) <= usize::MAX by {
            assert(status_count(summary, status) + n <= usize::MAX);
        }
        law_counters_count_their_status(summary, operations, n - 1);
        lemma_status_bound(operations, operations[n - 1].status, n - 1);
        assert(status_count(summary, operations[n - 1].status) + n <= usize::MAX);
    }
}

proof fn lemma_status_bound(operations: Seq<ObjectReport>, status: OperationStatus, n: int)
    requires
        0 <= n,
    ensures
        0 <= with_status(operations, status, n) <= n,
    decreases n,
{
    if n > 0 {
        lemma_status_bound(operations, status, n - 1);
    }
}

/// A dry run calls a write, a skip, a deletion and a failure by what the transfer
/// calls them, and tells the same key, path, size, digest, ETag and message.
pub proof fn law_dry_run_uses_the_same_words(operation: ObjectReportView)
    ensures
        operation.status == OperationStatus::UploadedNew ==> would_report(operation).status
            == DryRunOperationStatus::WouldUploadNew,
        operation.status == OperationStatus::UploadedChanged ==> would_report(operation).status
            == DryRunOperationStatus::WouldUploadChanged,
        operation.status == OperationStatus::SkippedUnchanged ==> would_report(operation).status
            == DryRunOperationStatus::SkippedUnchanged,
        operation.status == OperationStatus::DeletedExtra ==> would_report(operation).status
            == DryRunOperationStatus::WouldDeleteExtra,
        operation.status == OperationStatus::Error ==> would_report(operation).status
            == DryRunOperationStatus::Error,
        would_report(operation).key == operation.key,
        would_report(operation).zip_path == operation.zip_path,
        would_report(operation).size == operation.size,
        would_report(operation).md5 == operation.md5,
        would_report(operation).destination_etag == operation.destination_etag,
        would_report(operation).message == operation.message,
{
}

/// A dry run names what it would write by its condition, and what it would delete.
pub proof fn law_dry_run_names_what_it_would_do(
    job: UploadJobView,
    key: Seq<char>,
    object: DestinationView,
)
    ensures
        ({
            let write = would_upload(job);
            &&& write.status == if job.condition is IfNoneMatch {
                DryRunOperationStatus::WouldUploadNew
            } else {
                DryRunOperationStatus::WouldUploadChanged
            }
            &&& write.key == job.entry.key
            &&& write.zip_path == Some(job.entry.zip_path)
            &&& job.condition is IfMatch ==> write.destination_etag == Some(
                job.condition->IfMatch_0,
            )
            &&& write.message is None
        }),
        ({
            let deletion = would_delete(key, Some(object));
            &&& deletion.status == DryRunOperationStatus::WouldDeleteExtra
            &&& deletion.key == key
            &&& deletion.zip_path is None
            &&& deletion.size == object.size
            &&& deletion.destination_etag == object.etag
        }),
{
}

/// A deletion is reported as done exactly where the request was served and named no
/// failure for the key, and else as an error with its message.
pub proof fn law_deletions_are_reported_as_they_went(outcome: DeleteOutcome, key: Seq<char>)
    ensures
        ({
            let report = delete_report(key, delete_message(outcome, key));
            &&& report.key == key
            &&& match outcome {
                DeleteOutcome::Served(failed) => {
                    &&& failed@.contains_key(key) ==> report.status == OperationStatus::Error
                        && report.message == Some(failed@[key]@)
                    &&& !failed@.contains_key(key) ==> report.status
                        == OperationStatus::DeletedExtra && report.message is None
                },
                DeleteOutcome::Failed(message) => report.status == OperationStatus::Error
                    && report.message == Some(message@),
            }
        }),
{
}

/// Every failure that S3 names for a key is known.
pub proof fn law_every_failed_deletion_is_known(
    failures: Seq<(String, String)>,
    n: int,
    key: Seq<char>,
)
    requires
        0 <= n <= failures.len(),
    ensures
        failure_messages(failures, n).contains_key(key) <==> exists|i: int|
            0 <= i < n && (#[trigger] failures[i]).0@ == key,
    decreases n,
{
    if n > 0 {
        law_every_failed_deletion_is_known(failures, n - 1, key);
        if failures[n - 1].0@ == key {
            assert(failures[n - 1].0@ == key);
        }
    }
}

/// The keys of all requests are the keys to delete, in order, and no request has more
/// than a thousand.
pub proof fn law_delete_requests_hold_all_keys(chunks: Seq<Vec<String>>, chunk: Vec<String>)
    ensures
        chunk_keys(Seq::<Vec<String>>::empty()).len() == 0,
        chunk_keys(chunks.push(chunk)) == chunk_keys(chunks) + chunk@,
        chunks_full(chunks) ==> forall|i: int|
            0 <= i < chunks.len() ==> 1 <= (#[trigger] chunks[i])@.len() <= 1000,
{
    assert(chunks.push(chunk).drop_last() =~= chunks);
}

/// Only what no entry has is deleted: the keys to delete are the listed ones that are no
/// entry's, each once, and there are none where nothing is to be deleted.
pub proof fn law_only_extra_objects_are_deleted(
    expected: Set<Seq<char>>,
    entries: Seq<ManifestEntryView>,
    listed: Map<Seq<char>, DestinationView>,
    extra: Seq<String>,
    key: Seq<char>,
)
    requires
        is_key_set(expected, entries),
    ensures
        are_extra(extra, listed, Some(expected)) ==> ((exists|i: int|
            0 <= i < extra.len() && (#[trigger] extra[i])@ == key) <==> listed.contains_key(key)
            && forall|i: int| 0 <= i < entries.len() ==> (#[trigger] entries[i]).key != key),
        are_extra(extra, listed, Some(expected)) ==> forall|i: int, j: int|
            0 <= i < j < extra.len() ==> (#[trigger] extra[i])@ != (#[trigger] extra[j])@,
        are_extra(extra, listed, None) <==> extra.len() == 0,
{
    assert(expected.contains(key) <==> exists|i: int|
        0 <= i < entries.len() && (#[trigger] entries[i]).key == key);
    if are_extra(extra, listed, Some(expected)) {
        assert(has_key(extra, key) <==> listed.contains_key(key) && !expected.contains(key));
    }
}

/// A source that failed may be read again, unless its data or the request is wrong.
pub proof fn law_sources_may_be_read_again(error: ErrorView)
    ensures
        match error {
            ErrorView::Io(io) => retryable_producer_error(error) <==> !(io.kind
                == IoErrorKind::InvalidData || io.kind == IoErrorKind::InvalidInput),
            ErrorView::S3 { operation, bucket, key, message } => retryable_producer_error(error),
            ErrorView::MultipartAbort { original, abort } => retryable_producer_error(error)
                == retryable_producer_error(*original),
            _ => !retryable_producer_error(error),
        },
{
}

/// Progress counts every operation as an entry, and under its status.
pub proof fn law_progress_counts_each_operation(
    progress: ExtractProgress,
    status: OperationStatus,
)
    requires
        progress.processed_entries < u64::MAX,
        progress.uploaded_new < u64::MAX,
        progress.uploaded_changed < u64::MAX,
        progress.skipped_unchanged < u64::MAX,
        progress.conditional_conflicts < u64::MAX,
        progress.errors < u64::MAX,
    ensures
        ({
            let after = progressed(progress, status);
            &&& after.processed_entries == progress.processed_entries + 1
            &&& after.total_entries == progress.total_entries
            &&& after.uploaded_new - progress.uploaded_new == if status
                == OperationStatus::UploadedNew {
                1int
            } else {
                0
            }
            &&& after.uploaded_changed - progress.uploaded_changed == if status
                == OperationStatus::UploadedChanged {
                1int
            } else {
                0
            }
            &&& after.skipped_unchanged - progress.skipped_unchanged == if status
                == OperationStatus::SkippedUnchanged {
                1int
            } else {
                0
            }
            &&& after.conditional_conflicts - progress.conditional_conflicts == if status
                == OperationStatus::ConditionalConflict {
                1int
            } else {
                0
            }
            &&& after.errors - progress.errors == if status == OperationStatus::Error {
                1int
            } else {
                0
            }
        }),
{
}

/// A dry run counts an operation under its status, and under no other.
pub proof fn law_dry_run_counts_under_the_status(
    summary: UnzipDryRunSummary,
    status: DryRunOperationStatus,
    other: DryRunOperationStatus,
)
    requires
        dry_run_count(summary, status) < usize::MAX,
    ensures
        dry_run_count(dry_run_counted(summary, status), other) == dry_run_count(summary, other)
            + if other == status {
            1int
        } else {
            0
        },
        dry_run_counted(summary, status).zip_files == summary.zip_files,
        dry_run_counted(summary, status).destination_objects == summary.destination_objects,
        dry_run_count(summary, DryRunOperationStatus::WouldUploadNew) == summary.would_upload_new,
        dry_run_count(summary, DryRunOperationStatus::WouldUploadChanged)
            == summary.would_upload_changed,
        dry_run_count(summary, DryRunOperationStatus::SkippedUnchanged)
            == summary.skipped_unchanged,
        dry_run_count(summary, DryRunOperationStatus::WouldDeleteExtra)
            == summary.would_delete_extra,
        dry_run_count(summary, DryRunOperationStatus::Error) == summary.errors,
{
}

/// The marker of a directory is reported as it went: new, in conflict, or failed.
pub proof fn law_markers_are_reported_as_they_went(entry: LocalEntryView, outcome: MarkerOutcome)
    ensures
        ({
            let report = marker_report(entry, outcome);
            &&& report.key == entry.destination
            &&& report.zip_path == Some(entry.zip_path)
            &&& report.size == Some(0u64)
            &&& match outcome {
                MarkerOutcome::Written => report.status == OperationStatus::UploadedNew
                    && report.message is None,
                MarkerOutcome::Conflict(message) => report.status
                    == OperationStatus::ConditionalConflict && report.message == Some(message@),
                MarkerOutcome::Failed(message) => report.status == OperationStatus::Error
                    && report.message == Some(message@),
            }
        }),
{
}

/// A failed request is counted under the code of S3 where it gave one, and each one
/// under its own code.
pub proof fn law_failures_are_counted_by_code(
    error: PutSdkError,
    counts: Map<Seq<char>, u64>,
    code: Seq<char>,
    other: Seq<char>,
)
    requires
        counts.contains_key(code) ==> counts[code] < u64::MAX,
    ensures
        error.code is Some ==> failure_code(error) == error.code->Some_0@,
        counted_code(counts, code).contains_key(code),
        counted_code(counts, code)[code] == if counts.contains_key(code) {
            counts[code] + 1
        } else {
            1
        },
        other != code ==> counted_code(counts, code).contains_key(other) == counts.contains_key(
            other,
        ) && (counts.contains_key(other) ==> counted_code(counts, code)[other] == counts[other]),
{
}

/// A delay before an attempt is the longest one without jitter, and no longer than
/// that with it.
pub proof fn law_delays_stay_within_the_backoff(
    delay: Duration,
    policy: PutRetryPolicy,
    attempt: usize,
    throttled: bool,
)
    requires
        is_retry_delay(delay, policy, attempt, throttled),
    ensures
        duration_nanos(delay) <= retry_delay_limit(policy, attempt, throttled) * 1_000_000,
        policy.jitter == RetryJitter::Disabled ==> duration_nanos(delay) == retry_delay_limit(
            policy,
            attempt,
            throttled,
        ) * 1_000_000,
{
}

/// A run starts with the number of entries and of listed objects, and nothing done.
pub proof fn law_runs_start_with_nothing_done(entries: usize, objects: usize)
    ensures
        ({
            let record = fresh_record(entries, objects);
            &&& record.summary.zip_files == entries
            &&& record.summary.destination_objects == objects
            &&& record.summary.uploaded_new == 0
            &&& record.summary.uploaded_changed == 0
            &&& record.summary.skipped_unchanged == 0
            &&& record.summary.conditional_conflicts == 0
            &&& record.summary.deleted_extra == 0
            &&& record.summary.errors == 0
            &&& record.operations.len() == 0
            &&& record.progress.total_entries == entries
            &&& record.progress.processed_entries == 0
            &&& record.error is None
        }),
        ({
            let record = fresh_dry_record(entries, objects);
            &&& record.summary.zip_files == entries
            &&& record.summary.destination_objects == objects
            &&& record.operations.len() == 0
            &&& record.summary.would_upload_new == 0
            &&& record.summary.would_upload_changed == 0
            &&& record.summary.skipped_unchanged == 0
            &&& record.summary.would_delete_extra == 0
            &&& record.summary.errors == 0
        }),
{
}

/// The destinations of entries are exactly those that are not deleted.
pub proof fn law_destinations_of_entries_are_expected(
    keys: Set<Seq<char>>,
    entries: Seq<LocalEntryView>,
    key: Seq<char>,
)
    requires
        is_destination_set(keys, entries),
    ensures
        keys.contains(key) <==> exists|i: int|
            0 <= i < entries.len() && (#[trigger] entries[i]).destination == key,
{
}

} // verus!
