use vstd::prelude::*;
use crate::clocksource::NANOS_PER_SEC;

verus! {

broadcast use crate::clocksource::group_time_views;

/// `FILETIME` intervals (of 100 nanoseconds) from 1601-01-01 to the unix epoch.
pub const UNIX_EPOCH_INTERVALS: u64 = 116_444_736_000_000_000;

/// Nanoseconds in one `FILETIME` interval.
pub const NANOS_PER_INTERVAL: u64 = 100;

/// `FILETIME` intervals in one second.
pub const INTERVALS_PER_SEC: u64 = 10_000_000;

/// The intervals since the unix epoch of a `FILETIME` reading.
pub fn unix_intervals(filetime: u64) -> (r: u64)
    requires
        filetime >= UNIX_EPOCH_INTERVALS,
    ensures
        r == filetime - UNIX_EPOCH_INTERVALS,
{
    filetime - UNIX_EPOCH_INTERVALS
}

/// The coarse unix instant of a `FILETIME` reading: its whole seconds since
/// the unix epoch, truncated to 32 bits.
pub fn coarse(filetime: u64) -> (r: crate::clocksource::coarse::UnixInstant)
    requires
        filetime >= UNIX_EPOCH_INTERVALS,
    ensures
        r@ == ((filetime - UNIX_EPOCH_INTERVALS) as int / INTERVALS_PER_SEC as int) as u32,
{
    crate::clocksource::coarse::UnixInstant {
        secs: (unix_intervals(filetime) / (NANOS_PER_SEC / NANOS_PER_INTERVAL)) as u32,
    }
}

/// The precise unix instant of a `FILETIME` reading, in nanoseconds since the
/// unix epoch.
pub fn precise(filetime: u64) -> (r: crate::clocksource::precise::UnixInstant)
    requires
        filetime >= UNIX_EPOCH_INTERVALS,
        (filetime - UNIX_EPOCH_INTERVALS) * NANOS_PER_INTERVAL <= u64::MAX,
    ensures
        r@ == (filetime - UNIX_EPOCH_INTERVALS) * NANOS_PER_INTERVAL,
{
    crate::clocksource::precise::UnixInstant { ns: unix_intervals(filetime) * NANOS_PER_INTERVAL }
}

} // verus!
