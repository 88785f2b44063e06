//! Points in time.
use vstd::prelude::*;

verus! {

/// The last point in time for which a timer can be set.
pub const INSTANT_MAX_FIXED: u64 = 0xffff_ffff_ffff_fffe;

/// The point in time a duration from now, or the last one for which a timer can be set if that
/// is later.
pub open spec fn expiry(now: u64, duration: u64) -> int {
    if now + duration <= INSTANT_MAX_FIXED {
        now + duration
    } else {
        INSTANT_MAX_FIXED as int
    }
}

/// The point in time a duration from now, see [`expiry`].
pub fn expires_at(now: u64, duration: u64) -> (r: u64)
    ensures
        r == expiry(now, duration),
{
    let end: u64 = now.saturating_add(duration);
    if end <= INSTANT_MAX_FIXED {
        end
    } else {
        INSTANT_MAX_FIXED
    }
}

/// A timer expires exactly when its duration is over, if that is a point in time for which one can
/// be set; it never expires later than that, and never at the very last point in time, which stands
/// for no expiry.
pub proof fn expires_when_the_duration_is_over(now: u64, duration: u64)
    ensures
        now + duration < u64::MAX ==> expiry(now, duration) - now == duration,
        now + duration >= u64::MAX ==> expiry(now, duration) == u64::MAX - 1,
        expiry(now, duration) != u64::MAX,
{
}

} // verus!
