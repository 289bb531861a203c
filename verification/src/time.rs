//! Lengths of time.

use std::time::Duration;

use vstd::prelude::*;

verus! {

/// What `Duration::as_nanos` returns: the length of a duration in nanoseconds.
pub uninterp spec fn nanos(duration: Duration) -> nat;

/// `Duration::as_nanos` gives the length of a duration in nanoseconds.
pub assume_specification[ Duration::as_nanos ](duration: &Duration) -> (length: u128)
    ensures
        length == nanos(*duration),
;

/// `Duration::from_millis` makes a duration of that many milliseconds.
pub assume_specification[ Duration::from_millis ](millis: u64) -> (duration: Duration)
    ensures
        nanos(duration) == millis * 1_000_000,
;

/// `Duration::saturating_sub` takes one duration from another, and gives an empty one where
/// there is not enough to take from.
pub assume_specification[ Duration::saturating_sub ](duration: Duration, other: Duration) -> (left:
    Duration)
    ensures
        nanos(left) == if nanos(duration) >= nanos(other) {
            nanos(duration) - nanos(other)
        } else {
            0
        },
;

} // verus!
