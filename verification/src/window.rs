//! The 24-hour rate window that re-arms check-ins and the ad-view counter.

use vstd::prelude::*;

verus! {

/// Length of the rate window in seconds.
pub const WINDOW_SECONDS: u64 = 86400;

/// Whether at least `window` seconds lie between `last` and `now`.
/// A `now` that precedes `last` has not elapsed anything.
pub open spec fn elapsed_spec(last: u64, now: u64, window: u64) -> bool {
    now - last >= window
}

/// Tells whether the window that opened at `last` has run out at `now`.
pub fn elapsed(last: u64, now: u64, window: u64) -> (r: bool)
    ensures
        r == elapsed_spec(last, now, window),
{
    now >= last && now - last >= window
}

} // verus!
