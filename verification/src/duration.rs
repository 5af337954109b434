//! Lengths of time.
use std::time::Duration;
use vstd::prelude::*;

verus! {

/// The length of a [`Duration`] in nanoseconds, as [`Duration::as_nanos`] gives it.
pub uninterp spec fn nanos(d: Duration) -> nat;

/// [`Duration::from_secs`]: that many whole seconds.
pub assume_specification[ Duration::from_secs ](secs: u64) -> (d: Duration)
    ensures
        nanos(d) == secs * 1_000_000_000,
;

/// [`Duration::from_millis`]: that many milliseconds.
pub assume_specification[ Duration::from_millis ](millis: u64) -> (d: Duration)
    ensures
        nanos(d) == millis * 1_000_000,
;

} // verus!
