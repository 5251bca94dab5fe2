//! Time and duration types with fixed-size representations with either coarse
//! (whole seconds in 32 bits) or precise (nanoseconds in 64 bits) resolution.

pub mod atomic_ops;
pub mod coarse;
pub mod precise;
pub mod sys;

use vstd::prelude::*;

verus! {

/// Milliseconds in one second.
pub const MILLIS_PER_SEC: u64 = 1_000;

/// Microseconds in one second.
pub const MICROS_PER_SEC: u64 = 1_000_000;

/// Nanoseconds in one second.
pub const NANOS_PER_SEC: u64 = 1_000_000_000;

/// The views of the time types are their stored readings.
pub(crate) broadcast group group_time_views {
    coarse::duration::lemma_view_duration,
    coarse::instant::lemma_view_instant,
    coarse::unix_instant::lemma_view_unix_instant,
    precise::duration::lemma_view_duration,
    precise::instant::lemma_view_instant,
    precise::unix_instant::lemma_view_unix_instant,
}

} // verus!
