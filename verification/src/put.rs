//! Conditional writes to the destination: attempts, retries and throttling.
use std::time::Duration;

use vstd::arithmetic::power2::{lemma_pow2_unfold, pow2};
use vstd::prelude::*;
use vstd::string::*;

use crate::delay::{duration_millis, duration_millis_u64, duration_nanos, longest_nanos};
use crate::diagnostics::PutDiagnosticsCollector;
use crate::digest::{ExtractDigest, ExtractDigestView};
use crate::error::{error_text, Error, ErrorView, IoErrorKind};
use crate::options::{PutRetryPolicy, RetryJitter};
use crate::report::{next_count, PutRetryDiagnostics};
use crate::text::{cat3, str_eq, to_chars};
use crate::zip_manifest::opt_view;

verus! {

/// The precondition of a write.
#[derive(Debug)]
pub enum PutCondition {
    /// The key must be absent.
    IfNoneMatch,
    /// The object must still have the ETag.
    IfMatch(String),
}

pub enum PutConditionView {
    IfNoneMatch,
    IfMatch(Seq<char>),
}

impl View for PutCondition {
    type V = PutConditionView;

    open spec fn view(&self) -> PutConditionView {
        match self {
            PutCondition::IfNoneMatch => PutConditionView::IfNoneMatch,
            PutCondition::IfMatch(etag) => PutConditionView::IfMatch(etag@),
        }
    }
}

impl Clone for PutCondition {
    fn clone(&self) -> (copy: PutCondition)
        ensures
            copy@ == self@,
    {
        match self {
            PutCondition::IfNoneMatch => PutCondition::IfNoneMatch,
            PutCondition::IfMatch(etag) => PutCondition::IfMatch(etag.clone()),
        }
    }
}

/// What becomes of an object.
#[derive(Debug)]
pub enum PutResult {
    Uploaded(ExtractDigest),
    ConditionalConflict(String),
    Failed(String),
}

/// What becomes of one attempt to write an object.
#[derive(Debug)]
pub enum PutAttemptResult {
    Uploaded(ExtractDigest),
    ConditionalConflict(String),
    Failed {
        message: String,
        retryable: bool,
        error_code: Option<String>,
        /// How many attempts have failed in the whole transfer.
        failure_count: u64,
    },
}

pub enum PutResultView {
    Uploaded(ExtractDigestView),
    ConditionalConflict(Seq<char>),
    Failed(Seq<char>),
}

pub enum PutAttemptView {
    Uploaded(ExtractDigestView),
    ConditionalConflict(Seq<char>),
    Failed {
        message: Seq<char>,
        retryable: bool,
        error_code: Option<Seq<char>>,
        failure_count: u64,
    },
}

impl View for PutResult {
    type V = PutResultView;

    open spec fn view(&self) -> PutResultView {
        match self {
            PutResult::Uploaded(digest) => PutResultView::Uploaded(digest@),
            PutResult::ConditionalConflict(message) => PutResultView::ConditionalConflict(message@),
            PutResult::Failed(message) => PutResultView::Failed(message@),
        }
    }
}

impl View for PutAttemptResult {
    type V = PutAttemptView;

    open spec fn view(&self) -> PutAttemptView {
        match self {
            PutAttemptResult::Uploaded(digest) => PutAttemptView::Uploaded(digest@),
            PutAttemptResult::ConditionalConflict(message) => PutAttemptView::ConditionalConflict(
                message@,
            ),
            PutAttemptResult::Failed { message, retryable, error_code, failure_count } =>
            PutAttemptView::Failed {
                message: message@,
                retryable: *retryable,
                error_code: opt_view(*error_code),
                failure_count: *failure_count,
            },
        }
    }
}

/// At which stage a request failed.
#[derive(Clone, Copy, Debug, PartialEq, Eq, Structural)]
pub enum SdkErrorKind {
    ConstructionFailure,
    Timeout,
    DispatchFailure,
    ResponseError,
    ServiceError,
    Other,
}

/// A failed `PutObject` request.
#[derive(Debug)]
pub struct PutSdkError {
    pub kind: SdkErrorKind,
    /// HTTP status of the response of a service error.
    pub status: Option<u16>,
    /// AWS error code.
    pub code: Option<String>,
    /// The error with everything that caused it.
    pub context: String,
}

/// The text of a stage.
pub open spec fn sdk_error_text(kind: SdkErrorKind) -> Seq<char> {
    match kind {
        SdkErrorKind::ConstructionFailure => "construction failure"@,
        SdkErrorKind::Timeout => "timeout"@,
        SdkErrorKind::DispatchFailure => "dispatch failure"@,
        SdkErrorKind::ResponseError => "response error"@,
        SdkErrorKind::ServiceError => "service error"@,
        SdkErrorKind::Other => "sdk error"@,
    }
}

/// Names the stage at which a request failed.
pub fn put_sdk_error_kind(error: &PutSdkError) -> (text: &'static str)
    ensures
        text@ == sdk_error_text(error.kind),
{
    match error.kind {
        SdkErrorKind::ConstructionFailure => "construction failure",
        SdkErrorKind::Timeout => "timeout",
        SdkErrorKind::DispatchFailure => "dispatch failure",
        SdkErrorKind::ResponseError => "response error",
        SdkErrorKind::ServiceError => "service error",
        SdkErrorKind::Other => "sdk error",
    }
}

/// Text with each space made an underscore.
pub open spec fn underscored(text: Seq<char>) -> Seq<char> {
    text.map_values(
        |c: char|
            if c == ' ' {
                '_'
            } else {
                c
            },
    )
}

/// The code under which a failed request is counted.
pub open spec fn failure_code(error: PutSdkError) -> Seq<char> {
    match error.code {
        Some(code) => code@,
        None => underscored(sdk_error_text(error.kind)),
    }
}

/// The code under which a failed request is counted: the AWS error code, or
/// the stage at which it failed.
pub fn put_failure_error_code(error: &PutSdkError) -> (code: String)
    ensures
        code@ == failure_code(*error),
{
    match &error.code {
        Some(code) => code.clone(),
        None => {
            let chars = to_chars(put_sdk_error_kind(error));
            let ghost text = sdk_error_text(error.kind);
            let mut code = String::new();
            let mut i: usize = 0;
            while i < chars.len()
                invariant
                    i <= chars.len(),
                    chars@ == text,
                    code@ == underscored(text).take(i as int),
                decreases chars.len() - i,
            {
                let c: char = if chars[i] == ' ' {
                    '_'
                } else {
                    chars[i]
                };
                code.push(c);
                i += 1;
                assert(code@ =~= underscored(text).take(i as int));
            }
            assert(code@ =~= underscored(text));
            code
        },
    }
}

/// Whether an error code means that the destination asks for fewer requests.
pub open spec fn is_throttle_code(code: Seq<char>) -> bool {
    ||| code == "SlowDown"@
    ||| code == "Throttling"@
    ||| code == "ThrottlingException"@
    ||| code == "TooManyRequestsException"@
    ||| code == "RequestLimitExceeded"@
    ||| code == "RequestThrottled"@
    ||| code == "RequestThrottledException"@
    ||| code == "ProvisionedThroughputExceededException"@
    ||| code == "BandwidthLimitExceeded"@
}

/// Whether an error code means that the destination asks for fewer requests.
pub fn is_put_throttle_error_code(code: &str) -> (throttled: bool)
    ensures
        throttled == is_throttle_code(code@),
{
    str_eq(code, "SlowDown") || str_eq(code, "Throttling") || str_eq(code, "ThrottlingException")
        || str_eq(code, "TooManyRequestsException") || str_eq(code, "RequestLimitExceeded")
        || str_eq(code, "RequestThrottled") || str_eq(code, "RequestThrottledException") || str_eq(
        code,
        "ProvisionedThroughputExceededException",
    ) || str_eq(code, "BandwidthLimitExceeded")
}

/// Whether a request failed because its precondition did not hold.
pub open spec fn is_conflict(error: PutSdkError) -> bool {
    ||| error.kind == SdkErrorKind::ServiceError && (error.status == Some(409u16) || error.status
        == Some(412u16))
    ||| match error.code {
        Some(code) => code@ == "ConditionalRequestConflict"@ || code@ == "PreconditionFailed"@,
        None => false,
    }
}

/// Whether a request failed because its precondition did not hold.
pub fn is_conditional_put_conflict(error: &PutSdkError) -> (conflict: bool)
    ensures
        conflict == is_conflict(*error),
{
    if let SdkErrorKind::ServiceError = error.kind {
        if let Some(status) = error.status {
            if status == 409 || status == 412 {
                return true;
            }
        }
    }
    match &error.code {
        Some(code) => str_eq(code, "ConditionalRequestConflict") || str_eq(
            code,
            "PreconditionFailed",
        ),
        None => false,
    }
}

/// Whether writing may be tried again after its source failed so.
pub open spec fn retryable_producer_error(error: ErrorView) -> bool
    decreases error,
{
    match error {
        ErrorView::Io(error) => error.kind != IoErrorKind::InvalidData && error.kind
            != IoErrorKind::InvalidInput,
        ErrorView::S3 { operation: _, bucket: _, key: _, message: _ } => true,
        ErrorView::MultipartAbort { original, abort: _ } => retryable_producer_error(*original),
        _ => false,
    }
}

/// Whether writing may be tried again after its source failed so.
pub fn producer_error_is_retryable(error: &Error) -> (retryable: bool)
    ensures
        retryable == retryable_producer_error(error@),
    decreases error,
{
    match error {
        Error::Io(error) => !matches!(
            error.kind,
            IoErrorKind::InvalidData | IoErrorKind::InvalidInput
        ),
        Error::S3 { .. } => true,
        Error::MultipartAbort { original, .. } => producer_error_is_retryable(original),
        _ => false,
    }
}

/// What became of the producer of a body.
#[derive(Debug)]
pub enum ProducerOutcome {
    Finished(ExtractDigest),
    Failed(Error),
    /// The task ended abnormally.
    Crashed(String),
    /// Still at work.
    Unfinished,
}

pub enum ProducerView {
    Finished(ExtractDigestView),
    Failed(ErrorView),
    Crashed(Seq<char>),
    Unfinished,
}

impl View for ProducerOutcome {
    type V = ProducerView;

    open spec fn view(&self) -> ProducerView {
        match self {
            ProducerOutcome::Finished(digest) => ProducerView::Finished(digest@),
            ProducerOutcome::Failed(error) => ProducerView::Failed(error@),
            ProducerOutcome::Crashed(message) => ProducerView::Crashed(message@),
            ProducerOutcome::Unfinished => ProducerView::Unfinished,
        }
    }
}

/// An attempt that failed before or beside the request.
pub open spec fn source_failure(error: ErrorView) -> PutAttemptView {
    PutAttemptView::Failed {
        message: error_text(error),
        retryable: retryable_producer_error(error),
        error_code: None,
        failure_count: 0,
    }
}

/// The outcome of an attempt whose source failed.
pub fn put_attempt_after_source_error(error: &Error) -> (result: PutAttemptResult)
    ensures
        result@ == source_failure(error@),
{
    PutAttemptResult::Failed {
        message: error.to_string(),
        retryable: producer_error_is_retryable(error),
        error_code: None,
        failure_count: 0,
    }
}

/// The outcome of an attempt whose request succeeded.
pub open spec fn accepted_outcome(producer: ProducerView) -> PutAttemptView {
    match producer {
        ProducerView::Finished(digest) => PutAttemptView::Uploaded(digest),
        ProducerView::Failed(error) => source_failure(error),
        ProducerView::Crashed(message) => PutAttemptView::Failed {
            message,
            retryable: false,
            error_code: None,
            failure_count: 0,
        },
        ProducerView::Unfinished => PutAttemptView::Failed {
            message: "destination PUT finished before its body"@,
            retryable: false,
            error_code: None,
            failure_count: 0,
        },
    }
}

/// The outcome of an attempt whose request succeeded: the producer decides.
pub fn put_attempt_after_success(producer: ProducerOutcome) -> (result: PutAttemptResult)
    ensures
        result@ == accepted_outcome(producer@),
{
    match producer {
        ProducerOutcome::Finished(digest) => PutAttemptResult::Uploaded(digest),
        ProducerOutcome::Failed(error) => put_attempt_after_source_error(&error),
        ProducerOutcome::Crashed(message) => PutAttemptResult::Failed {
            message,
            retryable: false,
            error_code: None,
            failure_count: 0,
        },
        ProducerOutcome::Unfinished => PutAttemptResult::Failed {
            message: "destination PUT finished before its body".to_owned(),
            retryable: false,
            error_code: None,
            failure_count: 0,
        },
    }
}

/// The outcome of an attempt whose request failed, beside its producer.
pub open spec fn failed_outcome(
    producer: ProducerView,
    s3_message: Seq<char>,
    error_code: Option<Seq<char>>,
    failure_count: u64,
) -> PutAttemptView {
    match producer {
        ProducerView::Finished(_) => PutAttemptView::Failed {
            message: s3_message,
            retryable: true,
            error_code,
            failure_count,
        },
        ProducerView::Failed(error) => PutAttemptView::Failed {
            message: s3_message + "; producer failed after PutObject error: "@ + error_text(error),
            retryable: retryable_producer_error(error),
            error_code,
            failure_count,
        },
        ProducerView::Crashed(message) => PutAttemptView::Failed {
            message: s3_message + "; producer task failed after PutObject error: "@ + message,
            retryable: false,
            error_code,
            failure_count,
        },
        ProducerView::Unfinished => PutAttemptView::Failed {
            message: s3_message,
            retryable: true,
            error_code,
            failure_count,
        },
    }
}

/// The outcome of an attempt whose request failed, beside its producer.
pub fn put_failure_after_s3_error(
    producer: ProducerOutcome,
    s3_message: String,
    error_code: Option<String>,
    failure_count: u64,
) -> (result: PutAttemptResult)
    ensures
        result@ == failed_outcome(producer@, s3_message@, opt_view(error_code), failure_count),
{
    match producer {
        ProducerOutcome::Finished(_) | ProducerOutcome::Unfinished => PutAttemptResult::Failed {
            message: s3_message,
            retryable: true,
            error_code,
            failure_count,
        },
        ProducerOutcome::Failed(error) => PutAttemptResult::Failed {
            message: cat3(
                &s3_message,
                "; producer failed after PutObject error: ",
                &error.to_string(),
            ),
            retryable: producer_error_is_retryable(&error),
            error_code,
            failure_count,
        },
        ProducerOutcome::Crashed(message) => PutAttemptResult::Failed {
            message: cat3(
                &s3_message,
                "; producer task failed after PutObject error: ",
                &message,
            ),
            retryable: false,
            error_code,
            failure_count,
        },
    }
}

/// Counts a failed request under its code.
pub fn record_put_failure(error: &PutSdkError, diagnostics: &mut PutDiagnosticsCollector) -> (counted:
    (String, u64))
    requires
        old(diagnostics).wf(),
    ensures
        final(diagnostics).wf(),
        counted.0@ == failure_code(*error),
        counted.1 == next_count(old(diagnostics).failed_attempts),
        *final(diagnostics) == (PutDiagnosticsCollector {
            failed_attempts: counted.1,
            failures_by_error_code: final(diagnostics).failures_by_error_code,
            ..*old(diagnostics)
        }),
        final(diagnostics).failures_by_error_code@ == counted_code(
            old(diagnostics).failures_by_error_code@,
            failure_code(*error),
        ),
{
    let code = put_failure_error_code(error);
    let count: u64 = diagnostics.record_failure(&code);
    (code, count)
}

/// Counts by code with one more of a code.
pub open spec fn counted_code(counts: Map<Seq<char>, u64>, code: Seq<char>) -> Map<
    Seq<char>,
    u64,
> {
    counts.insert(
        code,
        if counts.contains_key(code) {
            next_count(counts[code])
        } else {
            1
        },
    )
}

/// What a failed request comes to.
pub open spec fn request_failure(
    error: PutSdkError,
    producer: ProducerView,
    failure_count: u64,
) -> PutAttemptView {
    if is_conflict(error) {
        PutAttemptView::ConditionalConflict(error.context@)
    } else {
        failed_outcome(
            producer,
            sdk_error_text(error.kind) + ": "@ + error.context@,
            Some(failure_code(error)),
            failure_count,
        )
    }
}

/// The outcome of an attempt whose request failed, as the given failure of the
/// transfer. A precondition that did not hold is a conflict and is not tried again.
pub fn put_attempt_after_error(
    error: PutSdkError,
    producer: ProducerOutcome,
    failure_count: u64,
) -> (result: PutAttemptResult)
    ensures
        result@ == request_failure(error, producer@, failure_count),
{
    if is_conditional_put_conflict(&error) {
        return PutAttemptResult::ConditionalConflict(error.context);
    }
    let code = put_failure_error_code(&error);
    let message = cat3(put_sdk_error_kind(&error), ": ", &error.context);
    put_failure_after_s3_error(producer, message, Some(code), failure_count)
}

/// A delay that doubles with each attempt, up to a maximum.
pub open spec fn backoff_millis(base_ms: u64, max_ms: u64, attempt: usize) -> u64 {
    let doublings = if attempt == 0 {
        0nat
    } else {
        (attempt - 1) as nat
    };
    if base_ms * pow2(doublings) < max_ms {
        (base_ms * pow2(doublings)) as u64
    } else {
        max_ms
    }
}

fn backoff(base_ms: u64, max_ms: u64, attempt: usize) -> (delay: u64)
    ensures
        delay == backoff_millis(base_ms, max_ms, attempt),
{
    proof {
        vstd::arithmetic::power2::lemma2_to64();
    }
    if base_ms == 0 {
        return 0;
    }
    assert(base_ms * pow2(0) == base_ms) by (nonlinear_arith)
        requires
            pow2(0) == 1,
    ;
    let mut delay: u64 = base_ms;
    let mut done: usize = 1;
    while done < attempt && delay < max_ms
        invariant
            base_ms > 0,
            1 <= done,
            attempt >= 1 ==> done <= attempt,
            attempt == 0 ==> done == 1,
            delay == base_ms * pow2((done - 1) as nat) || (delay >= max_ms && base_ms * pow2(
                (done - 1) as nat,
            ) >= max_ms),
            delay < max_ms ==> delay == base_ms * pow2((done - 1) as nat),
        decreases attempt - done,
    {
        let ghost before = base_ms * pow2((done - 1) as nat);
        proof {
            lemma_pow2_unfold(done as nat);
            assert(base_ms * pow2(done as nat) == 2 * before) by (nonlinear_arith)
                requires
                    pow2(done as nat) == 2 * pow2((done - 1) as nat),
                    before == base_ms * pow2((done - 1) as nat),
            ;
        }
        delay = if delay > max_ms / 2 {
            max_ms
        } else {
            delay * 2
        };
        done += 1;
    }
    proof {
        if attempt >= 1 && done < attempt {
            lemma_backoff_grows(base_ms, (done - 1) as nat, (attempt - 1) as nat);
        }
    }
    if delay < max_ms {
        delay
    } else {
        max_ms
    }
}

proof fn lemma_backoff_grows(base: u64, a: nat, b: nat)
    requires
        a <= b,
    ensures
        base * pow2(a) <= base * pow2(b),
    decreases b - a,
{
    if a < b {
        lemma_backoff_grows(base, a, (b - 1) as nat);
        lemma_pow2_unfold(b);
        assert(base * pow2((b - 1) as nat) <= base * pow2(b)) by (nonlinear_arith)
            requires
                pow2(b) == 2 * pow2((b - 1) as nat),
                base >= 0,
                pow2((b - 1) as nat) >= 0,
        ;
    }
}

/// The delay before an attempt is repeated: it doubles with each attempt, up to
/// a maximum, in whole milliseconds.
pub fn capped_exponential_delay(base: Duration, max: Duration, attempt: usize) -> (delay: Duration)
    ensures
        duration_nanos(delay) == backoff_millis(
            duration_millis(base),
            duration_millis(max),
            attempt,
        ) * 1_000_000,
{
    Duration::from_millis(backoff(duration_millis_u64(base), duration_millis_u64(max), attempt))
}

/// `fastrand::u64` picks a random number from a range; here one up to `limit`.
#[verifier::external_body]
fn random_up_to(limit: u64) -> (pick: u64)
    ensures
        pick <= limit,
{
    fastrand::u64(0..=limit)
}

/// The longest delay of a policy before an attempt is repeated.
pub open spec fn retry_delay_limit(policy: PutRetryPolicy, attempt: usize, throttled: bool) -> u64 {
    if throttled {
        backoff_millis(
            duration_millis(policy.slowdown_base_delay),
            duration_millis(policy.slowdown_max_delay),
            attempt,
        )
    } else {
        backoff_millis(
            duration_millis(policy.base_delay),
            duration_millis(policy.max_delay),
            attempt,
        )
    }
}

/// Whether a delay is one that a policy allows before an attempt is repeated.
pub open spec fn is_retry_delay(
    delay: Duration,
    policy: PutRetryPolicy,
    attempt: usize,
    throttled: bool,
) -> bool {
    let limit = retry_delay_limit(policy, attempt, throttled) * 1_000_000;
    match policy.jitter {
        RetryJitter::Disabled => duration_nanos(delay) == limit,
        RetryJitter::Full => duration_nanos(delay) <= limit && duration_nanos(delay) % 1_000_000
            == 0,
    }
}

/// The longest delay of a policy before an attempt is repeated.
fn longest_retry_delay(policy: &PutRetryPolicy, attempt: usize, throttled: bool) -> (delay: Duration)
    ensures
        duration_nanos(delay) == retry_delay_limit(*policy, attempt, throttled) * 1_000_000,
        duration_millis(delay) == retry_delay_limit(*policy, attempt, throttled),
{
    let (base, max) = if throttled {
        (policy.slowdown_base_delay, policy.slowdown_max_delay)
    } else {
        (policy.base_delay, policy.max_delay)
    };
    proof {
        let limit = retry_delay_limit(*policy, attempt, throttled);
        assert((limit * 1_000_000) / 1_000_000 == limit) by (nonlinear_arith);
    }
    capped_exponential_delay(base, max, attempt)
}

/// The delay before an attempt is repeated, given a pick of milliseconds up to
/// the longest delay. Without jitter the delay is the longest.
pub fn picked_retry_delay(
    policy: &PutRetryPolicy,
    attempt: usize,
    throttled: bool,
    pick: u64,
) -> (delay: Duration)
    ensures
        duration_nanos(delay) == match policy.jitter {
            RetryJitter::Full => pick,
            RetryJitter::Disabled => retry_delay_limit(*policy, attempt, throttled),
        } * 1_000_000,
{
    match policy.jitter {
        RetryJitter::Full => Duration::from_millis(pick),
        RetryJitter::Disabled => longest_retry_delay(policy, attempt, throttled),
    }
}

/// The delay before an attempt is repeated. Full jitter picks one at random.
pub fn put_retry_delay(policy: &PutRetryPolicy, attempt: usize, throttled: bool) -> (delay: Duration)
    ensures
        is_retry_delay(delay, *policy, attempt, throttled),
{
    let limit: u64 = duration_millis_u64(longest_retry_delay(policy, attempt, throttled));
    let pick: u64 = match policy.jitter {
        RetryJitter::Full => random_up_to(limit),
        RetryJitter::Disabled => limit,
    };
    picked_retry_delay(policy, attempt, throttled, pick)
}

/// A retry policy in milliseconds.
pub fn put_retry_diagnostics(policy: &PutRetryPolicy) -> (report: PutRetryDiagnostics)
    ensures
        report == (PutRetryDiagnostics {
            max_attempts: policy.max_attempts,
            base_delay_ms: duration_millis(policy.base_delay),
            max_delay_ms: duration_millis(policy.max_delay),
            slowdown_base_delay_ms: duration_millis(policy.slowdown_base_delay),
            slowdown_max_delay_ms: duration_millis(policy.slowdown_max_delay),
            jitter: policy.jitter,
        }),
{
    PutRetryDiagnostics {
        max_attempts: policy.max_attempts,
        base_delay_ms: duration_millis_u64(policy.base_delay),
        max_delay_ms: duration_millis_u64(policy.max_delay),
        slowdown_base_delay_ms: duration_millis_u64(policy.slowdown_base_delay),
        slowdown_max_delay_ms: duration_millis_u64(policy.slowdown_max_delay),
        jitter: policy.jitter,
    }
}

/// What to do after an attempt.
#[derive(Debug)]
pub enum PutDecision {
    Done(PutResult),
    /// Try again after the delay; a throttled delay holds for all writers.
    Retry { delay: Duration, throttled: bool },
}

/// Whether an attempt is repeated.
pub open spec fn repeats(policy: PutRetryPolicy, attempt: usize, result: PutAttemptView) -> bool {
    match result {
        PutAttemptView::Failed { message: _, retryable, error_code: _, failure_count: _ } =>
        retryable && attempt < policy.max_attempts,
        _ => false,
    }
}

/// Whether an attempt failed because the destination asks for fewer requests.
pub open spec fn was_throttled(result: PutAttemptView) -> bool {
    match result {
        PutAttemptView::Failed { message: _, retryable: _, error_code, failure_count: _ } =>
        match error_code {
            Some(code) => is_throttle_code(code),
            None => false,
        },
        _ => false,
    }
}

/// What an attempt that is not repeated comes to.
pub open spec fn put_outcome(result: PutAttemptView) -> PutResultView {
    match result {
        PutAttemptView::Uploaded(digest) => PutResultView::Uploaded(digest),
        PutAttemptView::ConditionalConflict(message) => PutResultView::ConditionalConflict(message),
        PutAttemptView::Failed { message, retryable: _, error_code: _, failure_count: _ } =>
        PutResultView::Failed(message),
    }
}

/// Decides what follows an attempt. Only failures that may pass are repeated,
/// as long as the policy allows attempts.
pub fn decide_put_attempt(
    policy: &PutRetryPolicy,
    attempt: usize,
    result: PutAttemptResult,
    diagnostics: &mut PutDiagnosticsCollector,
) -> (decision: PutDecision)
    ensures
        if repeats(*policy, attempt, result@) {
            &&& decision is Retry
            &&& decision->throttled == was_throttled(result@)
            &&& is_retry_delay(decision->delay, *policy, attempt, decision->throttled)
            &&& *final(diagnostics) == (PutDiagnosticsCollector {
                retry_attempts: next_count(old(diagnostics).retry_attempts),
                ..*old(diagnostics)
            })
        } else {
            &&& decision is Done
            &&& decision->Done_0@ == put_outcome(result@)
            &&& *final(diagnostics) == *old(diagnostics)
        },
{
    match result {
        PutAttemptResult::Uploaded(digest) => PutDecision::Done(PutResult::Uploaded(digest)),
        PutAttemptResult::ConditionalConflict(message) => PutDecision::Done(
            PutResult::ConditionalConflict(message),
        ),
        PutAttemptResult::Failed { message, retryable, error_code, failure_count: _ } => {
            if retryable && attempt < policy.max_attempts {
                diagnostics.record_retry();
                let throttled: bool = match &error_code {
                    Some(code) => is_put_throttle_error_code(code),
                    None => false,
                };
                let delay = put_retry_delay(policy, attempt, throttled);
                PutDecision::Retry { delay, throttled }
            } else {
                PutDecision::Done(PutResult::Failed(message))
            }
        },
    }
}

/// A pause that all writers to a destination share. Times are durations since
/// a fixed moment.
#[derive(Debug)]
pub struct PutThrottle {
    pub cooldown_until: Option<Duration>,
}

impl PutThrottle {
    pub fn new() -> (throttle: PutThrottle)
        ensures
            throttle.cooldown_until is None,
    {
        PutThrottle { cooldown_until: None }
    }

    /// How long a writer that comes at `now` has to wait.
    pub fn wait(&self, now: Duration, diagnostics: &mut PutDiagnosticsCollector) -> (delay: Option<
        Duration,
    >)
        ensures
            match self.cooldown_until {
                Some(deadline) => if duration_nanos(deadline) > duration_nanos(now) {
                    &&& delay is Some
                    &&& duration_nanos(delay->Some_0) == duration_nanos(deadline) - duration_nanos(
                        now,
                    )
                    &&& *final(diagnostics) == (PutDiagnosticsCollector {
                        throttle_waits: next_count(old(diagnostics).throttle_waits),
                        throttle_wait_millis: crate::diagnostics::wrapped_sum(
                            old(diagnostics).throttle_wait_millis,
                            crate::diagnostics::wait_millis(delay->Some_0),
                        ),
                        ..*old(diagnostics)
                    })
                } else {
                    delay is None && *final(diagnostics) == *old(diagnostics)
                },
                None => delay is None && *final(diagnostics) == *old(diagnostics),
            },
    {
        let deadline = match self.cooldown_until {
            Some(deadline) => deadline,
            None => return None,
        };
        let delay = match deadline.checked_sub(now) {
            Some(delay) => delay,
            None => return None,
        };
        if delay.as_nanos() == 0 {
            return None;
        }
        diagnostics.record_throttle_wait(delay);
        Some(delay)
    }

    /// Lets all writers pause for `delay` from `now` on, if they do not
    /// already pause longer.
    pub fn throttle(
        &mut self,
        now: Duration,
        delay: Duration,
        diagnostics: &mut PutDiagnosticsCollector,
    )
        requires
            duration_nanos(now) + duration_nanos(delay) <= longest_nanos(),
        ensures
            *final(diagnostics) == (PutDiagnosticsCollector {
                throttled_attempts: next_count(old(diagnostics).throttled_attempts),
                ..*old(diagnostics)
            }),
            if duration_nanos(delay) > 0 && match old(self).cooldown_until {
                Some(current) => duration_nanos(now) + duration_nanos(delay) > duration_nanos(
                    current,
                ),
                None => true,
            } {
                final(self).cooldown_until is Some && duration_nanos(
                    final(self).cooldown_until->Some_0,
                ) == duration_nanos(now) + duration_nanos(delay)
            } else {
                *final(self) == *old(self)
            },
    {
        diagnostics.record_throttled_attempt();
        if delay.as_nanos() == 0 {
            return;
        }
        let deadline = match now.checked_add(delay) {
            Some(deadline) => deadline,
            None => return,
        };
        let later: bool = match self.cooldown_until {
            Some(current) => deadline.as_nanos() > current.as_nanos(),
            None => true,
        };
        if later {
            self.cooldown_until = Some(deadline);
        }
    }
}

/// Delays do not shrink from one attempt to the next, and never exceed the maximum.
pub proof fn law_backoff_grows_to_its_limit(base_ms: u64, max_ms: u64, attempt: usize, later: usize)
    requires
        attempt <= later,
    ensures
        backoff_millis(base_ms, max_ms, attempt) <= backoff_millis(base_ms, max_ms, later),
        backoff_millis(base_ms, max_ms, attempt) <= max_ms,
{
    let a = if attempt == 0 {
        0nat
    } else {
        (attempt - 1) as nat
    };
    let b = if later == 0 {
        0nat
    } else {
        (later - 1) as nat
    };
    lemma_backoff_grows(base_ms, a, b);
}

/// A conflict is final: whatever the policy, the write is not repeated.
pub proof fn law_conflicts_are_not_repeated(policy: PutRetryPolicy, attempt: usize, message: Seq<char>)
    ensures
        !repeats(policy, attempt, PutAttemptView::ConditionalConflict(message)),
        put_outcome(PutAttemptView::ConditionalConflict(message))
            == PutResultView::ConditionalConflict(message),
{
}

/// No attempt follows the last one that the policy allows.
pub proof fn law_attempts_are_bounded(policy: PutRetryPolicy, attempt: usize, result: PutAttemptView)
    requires
        attempt >= policy.max_attempts,
    ensures
        !repeats(policy, attempt, result),
{
}

} // verus!
