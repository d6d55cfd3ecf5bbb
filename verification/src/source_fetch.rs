//! Fetching one byte range of the source, with retries.
use vstd::prelude::*;
use vstd::set_lib::set_int_range;
use vstd::string::*;

use crate::constants::GET_OBJECT_MAX_ATTEMPTS;
use crate::diagnostics::{with_counters, wrapped_sum, SourceCounters, SourceDiagnosticsCollector};
use crate::error::{IoError, IoErrorKind, IoErrorView};
use crate::report::next_count;
use crate::source_plan::range_len;
use crate::text::{cat2, cat4, decimal, decimal_spec};

verus! {

/// Why a range of the source cannot be fetched.
pub open spec fn range_problem(start: u64, end: u64, source_len: u64) -> Option<IoErrorView> {
    if end < start {
        Some(
            IoErrorView {
                kind: IoErrorKind::InvalidInput,
                message: "invalid S3 range: start "@ + decimal_spec(start as nat)
                    + " is greater than end "@ + decimal_spec(end as nat),
            },
        )
    } else if end >= source_len {
        Some(
            IoErrorView {
                kind: IoErrorKind::InvalidInput,
                message: "invalid S3 range: end "@ + decimal_spec(end as nat)
                    + " is outside source object length "@ + decimal_spec(source_len as nat),
            },
        )
    } else {
        None
    }
}

/// A range to fetch, and the number of the attempt.
#[derive(Clone, Copy, Debug, PartialEq, Eq, Structural)]
pub struct RangeFetch {
    pub start: u64,
    pub end: u64,
    /// One for the first attempt.
    pub attempt: usize,
}

/// What to do after an attempt failed.
#[derive(Clone, Copy, Debug, PartialEq, Eq, Structural)]
pub enum RetryDecision {
    /// Wait for so many milliseconds and try again.
    Retry { delay_ms: u64, next: RangeFetch },
    GiveUp,
}

/// What follows a failed attempt: a growing pause and another attempt, until the
/// attempts are used up.
pub open spec fn after_failure(fetch: RangeFetch) -> RetryDecision {
    if fetch.attempt < GET_OBJECT_MAX_ATTEMPTS {
        RetryDecision::Retry {
            delay_ms: (100 * fetch.attempt) as u64,
            next: RangeFetch { attempt: (fetch.attempt + 1) as usize, ..fetch },
        }
    } else {
        RetryDecision::GiveUp
    }
}

/// The value of the request's range header.
pub open spec fn range_header(start: u64, end: u64) -> Seq<char> {
    "bytes="@ + decimal_spec(start as nat) + "-"@ + decimal_spec(end as nat)
}

fn invalid_source_range(start: u64, end: u64) -> (error: IoError)
    ensures
        error@ == (IoErrorView {
            kind: IoErrorKind::InvalidInput,
            message: "invalid S3 range: start "@ + decimal_spec(start as nat)
                + " is greater than end "@ + decimal_spec(end as nat),
        }),
{
    IoError {
        kind: IoErrorKind::InvalidInput,
        message: cat4(
            "invalid S3 range: start ",
            &decimal(start),
            " is greater than end ",
            &decimal(end),
        ),
    }
}

impl RangeFetch {
    /// The range holds a byte, and the attempt is one of those allowed.
    pub open spec fn wf(self) -> bool {
        self.start <= self.end < u64::MAX && 1 <= self.attempt <= GET_OBJECT_MAX_ATTEMPTS
    }

    /// Starts on a range of a source, or says why it cannot be fetched.
    pub fn begin(start: u64, end: u64, source_len: u64) -> (fetch: core::result::Result<
        RangeFetch,
        IoError,
    >)
        ensures
            match range_problem(start, end, source_len) {
                Some(error) => fetch is Err && fetch->Err_0@ == error,
                None => fetch is Ok && fetch->Ok_0 == (RangeFetch { start, end, attempt: 1 })
                    && fetch->Ok_0.wf(),
            },
    {
        if end < start {
            return Err(invalid_source_range(start, end));
        }
        if end >= source_len {
            return Err(
                IoError {
                    kind: IoErrorKind::InvalidInput,
                    message: cat4(
                        "invalid S3 range: end ",
                        &decimal(end),
                        " is outside source object length ",
                        &decimal(source_len),
                    ),
                },
            );
        }
        Ok(RangeFetch { start, end, attempt: 1 })
    }

    /// Counts the attempt, and gives the value of the request's range header.
    pub fn start_attempt(self, diagnostics: &mut SourceDiagnosticsCollector) -> (header: String)
        ensures
            header@ == range_header(self.start, self.end),
            *final(diagnostics) == with_counters(
                *old(diagnostics),
                SourceCounters {
                    source_get_attempts: next_count(old(diagnostics).counters.source_get_attempts),
                    source_get_retries: if self.attempt > 1 {
                        next_count(old(diagnostics).counters.source_get_retries)
                    } else {
                        old(diagnostics).counters.source_get_retries
                    },
                    ..old(diagnostics).counters
                },
            ),
    {
        diagnostics.record_get_attempt(self.start, self.end, self.attempt);
        cat4("bytes=", &decimal(self.start), "-", &decimal(self.end))
    }

    /// Counts the fetched range.
    pub fn succeed(self, diagnostics: &mut SourceDiagnosticsCollector)
        requires
            old(diagnostics).wf(),
        ensures
            final(diagnostics).wf(),
            final(diagnostics).source_zip_bytes == old(diagnostics).source_zip_bytes,
            final(diagnostics).counters == (SourceCounters {
                fetched_source_bytes: wrapped_sum(
                    old(diagnostics).counters.fetched_source_bytes,
                    range_len(self.start, self.end),
                ),
                ..old(diagnostics).counters
            }),
            final(diagnostics).fetched_coverage@ == old(diagnostics).fetched_coverage@.union(
                set_int_range(self.start as int, self.end + 1),
            ),
    {
        diagnostics.record_get_success(self.start, self.end);
    }

    /// Decides what follows a failed attempt: a growing pause and another
    /// attempt, until the attempts are used up.
    pub fn fail(self, diagnostics: &mut SourceDiagnosticsCollector) -> (decision: RetryDecision)
        requires
            self.wf(),
        ensures
            decision == after_failure(self),
            match decision {
                RetryDecision::Retry { delay_ms: _, next } => next.wf() && *final(diagnostics)
                    == *old(diagnostics),
                RetryDecision::GiveUp => *final(diagnostics) == with_counters(
                    *old(diagnostics),
                    SourceCounters {
                        source_get_errors: next_count(old(diagnostics).counters.source_get_errors),
                        ..old(diagnostics).counters
                    },
                ),
            },
    {
        if self.attempt < GET_OBJECT_MAX_ATTEMPTS {
            RetryDecision::Retry {
                delay_ms: 100 * self.attempt as u64,
                next: RangeFetch {
                    start: self.start,
                    end: self.end,
                    attempt: self.attempt + 1,
                },
            }
        } else {
            diagnostics.record_get_error();
            RetryDecision::GiveUp
        }
    }

    /// Compares the length of a response body with that of the range.
    pub fn check_body(
        self,
        body_len: usize,
        diagnostics: &mut SourceDiagnosticsCollector,
    ) -> (result: core::result::Result<(), IoError>)
        requires
            self.wf(),
        ensures
            result is Ok <==> body_len == self.end - self.start + 1,
            result is Err ==> result->Err_0@ == if self.end - self.start + 1 > usize::MAX {
                IoErrorView {
                    kind: IoErrorKind::InvalidInput,
                    message: "S3 range is too large"@,
                }
            } else {
                IoErrorView {
                    kind: IoErrorKind::UnexpectedEof,
                    message: "S3 range "@ + range_header(self.start, self.end) + " returned "@
                        + decimal_spec(body_len as nat) + " bytes, expected "@ + decimal_spec(
                        (self.end - self.start + 1) as nat,
                    ),
                }
            },
            *final(diagnostics) == with_counters(
                *old(diagnostics),
                SourceCounters {
                    source_get_short_body_errors: if result is Err && self.end - self.start + 1
                        <= usize::MAX {
                        next_count(old(diagnostics).counters.source_get_short_body_errors)
                    } else {
                        old(diagnostics).counters.source_get_short_body_errors
                    },
                    ..old(diagnostics).counters
                },
            ),
    {
        let expected: u64 = self.end - self.start + 1;
        if expected > usize::MAX as u64 {
            return Err(IoError::new(IoErrorKind::InvalidInput, "S3 range is too large"));
        }
        if body_len as u64 == expected {
            return Ok(());
        }
        diagnostics.record_get_short_body_error();
        let header = cat4("bytes=", &decimal(self.start), "-", &decimal(self.end));
        let returned = cat4("S3 range ", &header, " returned ", &decimal(body_len as u64));
        let message = returned.concat(" bytes, expected ").concat(decimal(expected).as_str());
        Err(IoError { kind: IoErrorKind::UnexpectedEof, message })
    }
}

/// Counts a failed request, and gives the error for it.
pub fn request_error(message: &str, diagnostics: &mut SourceDiagnosticsCollector) -> (error: IoError)
    ensures
        error@ == (IoErrorView {
            kind: IoErrorKind::Other,
            message: "S3 ranged GetObject failed: "@ + message@,
        }),
        *final(diagnostics) == with_counters(
            *old(diagnostics),
            SourceCounters {
                source_get_request_errors: next_count(
                    old(diagnostics).counters.source_get_request_errors,
                ),
                ..old(diagnostics).counters
            },
        ),
{
    diagnostics.record_get_request_error();
    IoError { kind: IoErrorKind::Other, message: cat2("S3 ranged GetObject failed: ", message) }
}

/// Counts a body that could not be read, and gives the error for it.
pub fn body_error(message: &str, diagnostics: &mut SourceDiagnosticsCollector) -> (error: IoError)
    ensures
        error@ == (IoErrorView {
            kind: IoErrorKind::Other,
            message: "S3 body read failed: "@ + message@,
        }),
        *final(diagnostics) == with_counters(
            *old(diagnostics),
            SourceCounters {
                source_get_body_errors: next_count(
                    old(diagnostics).counters.source_get_body_errors,
                ),
                ..old(diagnostics).counters
            },
        ),
{
    diagnostics.record_get_body_error();
    IoError { kind: IoErrorKind::Other, message: cat2("S3 body read failed: ", message) }
}

} // verus!
