//! Durations as counts of nanoseconds.
use std::time::Duration;

use vstd::prelude::*;

verus! {

/// The length of a [`Duration`] in nanoseconds.
pub uninterp spec fn duration_nanos(duration: Duration) -> nat;

/// `Duration::as_nanos` returns the length of the duration in nanoseconds.
pub assume_specification[ Duration::as_nanos ](duration: &Duration) -> (nanos: u128)
    ensures
        nanos == duration_nanos(*duration),
;

/// `Duration::from_millis` makes the duration of so many milliseconds.
pub assume_specification[ Duration::from_millis ](millis: u64) -> (duration: Duration)
    ensures
        duration_nanos(duration) == millis * 1_000_000,
;

/// `Duration::checked_sub` subtracts, and gives nothing where the result
/// would be negative.
pub assume_specification[ Duration::checked_sub ](duration: Duration, rhs: Duration) -> (rest:
    Option<Duration>)
    ensures
        rest is Some <==> duration_nanos(rhs) <= duration_nanos(duration),
        rest is Some ==> duration_nanos(rest->Some_0) == duration_nanos(duration)
            - duration_nanos(rhs),
;

/// The longest duration: `u64::MAX` seconds and 999,999,999 nanoseconds.
pub open spec fn longest_nanos() -> int {
    u64::MAX * 1_000_000_000 + 999_999_999
}

/// `Duration::checked_add` adds, and gives nothing where the sum is longer
/// than the longest duration.
pub assume_specification[ Duration::checked_add ](duration: Duration, rhs: Duration) -> (sum:
    Option<Duration>)
    ensures
        sum is Some <==> duration_nanos(duration) + duration_nanos(rhs) <= longest_nanos(),
        sum is Some ==> duration_nanos(sum->Some_0) == duration_nanos(duration) + duration_nanos(
            rhs,
        ),
;

/// The whole milliseconds of a duration, within `u64`.
pub open spec fn duration_millis(duration: Duration) -> u64 {
    let millis = duration_nanos(duration) / 1_000_000;
    if millis > u64::MAX {
        u64::MAX
    } else {
        millis as u64
    }
}

/// The whole milliseconds of a duration, within `u64`.
pub fn duration_millis_u64(duration: Duration) -> (millis: u64)
    ensures
        millis == duration_millis(duration),
{
    let millis: u128 = duration.as_nanos() / 1_000_000;
    if millis > u64::MAX as u128 {
        u64::MAX
    } else {
        millis as u64
    }
}

/// Whether one duration is shorter than another.
pub(crate) fn shorter(left: Duration, right: Duration) -> (yes: bool)
    ensures
        yes == (duration_nanos(left) < duration_nanos(right)),
{
    left.as_nanos() < right.as_nanos()
}

} // verus!
