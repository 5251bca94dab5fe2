//! Conversions from the raw readings of the operating system clocks into the
//! clock types of this crate, and a reading of the system (real time) clock.

pub mod unix;
pub mod windows;

use vstd::prelude::*;

verus! {

/// Reads the system clock and returns the whole seconds and the remaining
/// nanoseconds since the unix epoch. A reading before the epoch is returned
/// as `(0, 0)`. The reading depends on the time, so nothing is stated of it
/// but that the nanoseconds are below one second.
pub(crate) fn realtime_timespec() -> (r: (i64, i64))
    ensures
        0 <= r.1 < 1_000_000_000,
{
    match system_time_since_epoch(system_time_now()) {
        Some(d) => (std_duration_secs(d) as i64, std_duration_subsec_nanos(d) as i64),
        None => (0, 0),
    }
}

#[verifier::external_type_specification]
#[verifier::external_body]
pub struct ExSystemTime(std::time::SystemTime);

/// Calls `core::time::Duration::as_nanos`, the whole nanoseconds of a
/// standard duration. The standard duration is opaque here, so nothing is
/// stated of the result.
#[verifier::external_body]
pub(crate) fn std_duration_nanos(d: core::time::Duration) -> (r: u128) {
    d.as_nanos()
}

/// Calls `std::time::SystemTime::now`, the current reading of the system
/// clock. It depends on the time, so nothing is stated of it.
#[verifier::external_body]
pub(crate) fn system_time_now() -> (r: std::time::SystemTime) {
    std::time::SystemTime::now()
}

/// Calls `core::time::Duration::subsec_nanos`, the fractional part of a
/// standard duration in nanoseconds, which its documentation says is always
/// less than one billion.
#[verifier::external_body]
pub(crate) fn std_duration_subsec_nanos(d: core::time::Duration) -> (r: u32)
    ensures
        r < 1_000_000_000,
{
    d.subsec_nanos()
}

/// Calls `core::time::Duration::as_secs`, the whole seconds of a standard
/// duration. The standard duration is opaque here, so nothing is stated of
/// the result.
#[verifier::external_body]
pub(crate) fn std_duration_secs(d: core::time::Duration) -> (r: u64) {
    d.as_secs()
}

/// Calls `std::time::SystemTime::duration_since` with the unix epoch: the
/// time since the epoch, or `None` if the time is before it. The times are
/// opaque here, so nothing is stated of the result.
#[verifier::external_body]
pub(crate) fn system_time_since_epoch(t: std::time::SystemTime) -> (r: Option<core::time::Duration>) {
    match t.duration_since(std::time::UNIX_EPOCH) {
        Ok(d) => Some(d),
        Err(_) => None,
    }
}

} // verus!
