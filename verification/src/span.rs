//! Spans of time.

use vstd::prelude::*;

verus! {

/// The length of a span in nanoseconds.
pub uninterp spec fn nanos_of(d: std::time::Duration) -> nat;

/// `Duration::from_secs`: that many whole seconds.
pub assume_specification[ std::time::Duration::from_secs ](secs: u64) -> (res: std::time::Duration)
    ensures
        nanos_of(res) == secs * 1_000_000_000,
;

} // verus!
