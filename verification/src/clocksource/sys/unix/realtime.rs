use vstd::prelude::*;
use crate::clocksource::sys::unix::{timespec_nanos, timespec_to_nanos};

verus! {

broadcast use crate::clocksource::group_time_views;

/// The coarse unix instant of a `CLOCK_REALTIME_COARSE` reading: its
/// whole seconds, truncated to 32 bits.
pub fn coarse(tv_sec: i64) -> (r: crate::clocksource::coarse::UnixInstant)
    ensures
        r@ == tv_sec as u32,
{
    crate::clocksource::coarse::UnixInstant { secs: tv_sec as u32 }
}

/// The precise unix instant of a `CLOCK_REALTIME` reading, in
/// nanoseconds (wrapping on overflow).
pub fn precise(tv_sec: i64, tv_nsec: i64) -> (r: crate::clocksource::precise::UnixInstant)
    ensures
        r@ == timespec_nanos(tv_sec, tv_nsec),
{
    crate::clocksource::precise::UnixInstant { ns: timespec_to_nanos(tv_sec, tv_nsec) }
}

} // verus!
