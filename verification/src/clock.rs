//! Moments of a clock that never runs backwards, in nanoseconds since some fixed moment.
use vstd::prelude::*;

verus! {

/// One second.
pub const SECOND: u64 = 1_000_000_000;

/// The time from `earlier` to `now`, and no time at all if `earlier` is the later moment.
pub open spec fn time_since(now: u64, earlier: u64) -> u64 {
    if now >= earlier {
        (now - earlier) as u64
    } else {
        0
    }
}

/// The time from `earlier` to `now`, and no time at all if `earlier` is the later moment.
pub fn elapsed(now: u64, earlier: u64) -> (r: u64)
    ensures
        r == time_since(now, earlier),
{
    if now >= earlier {
        now - earlier
    } else {
        0
    }
}

} // verus!
