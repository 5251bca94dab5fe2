use vstd::prelude::*;
use core::sync::atomic::{AtomicU32, Ordering};
use crate::clocksource::coarse::{Duration, UnixInstant};
use crate::clocksource::atomic_ops::{load_ordering_ok, store_ordering_ok, compare_exchange_u32, compare_exchange_weak_u32};

verus! {

broadcast use crate::clocksource::group_time_views;

/// A system clock reading in whole seconds since the unix epoch, held in an
/// `AtomicU32` so that it can be read and changed through a shared reference.
#[derive(Default, Debug)]
pub struct AtomicUnixInstant {
    secs: AtomicU32,
}

impl AtomicUnixInstant {
    /// Create a new `AtomicUnixInstant` holding the provided value.
    pub fn new(value: UnixInstant) -> (r: Self) {
        Self { secs: AtomicU32::new(value.secs) }
    }

    /// Create a new atomic unix instant representing the current instant.
    pub fn now() -> (r: Self) {
        Self::new(UnixInstant::now())
    }

    /// Loads the value.
    ///
    /// See: [`core::sync::atomic::AtomicU32::load`] for a description of the
    /// memory orderings; a `Release` or `AcqRel` ordering is not allowed.
    pub fn load(&self, ordering: Ordering) -> (r: UnixInstant)
        requires
            load_ordering_ok(ordering),
    {
        UnixInstant { secs: self.secs.load(ordering) }
    }

    /// Stores a new value.
    ///
    /// See: [`core::sync::atomic::AtomicU32::store`] for a description of the
    /// memory orderings; an `Acquire` or `AcqRel` ordering is not allowed.
    pub fn store(&self, value: UnixInstant, ordering: Ordering)
        requires
            store_ordering_ok(ordering),
    {
        self.secs.store(value.secs, ordering)
    }

    /// Replaces the value and returns the previous value.
    pub fn swap(&self, value: UnixInstant, ordering: Ordering) -> (r: UnixInstant) {
        UnixInstant { secs: self.secs.swap(value.secs, ordering) }
    }

    /// Stores `new` if the current value is `current`. Returns `Ok` with the
    /// previous value, which then equals `current`, if the value was
    /// written, and `Err` with the previous value, which then differs from
    /// `current`, if it was not.
    pub fn compare_exchange(
        &self,
        current: UnixInstant,
        new: UnixInstant,
        success: Ordering,
        failure: Ordering,
    ) -> (r: Result<UnixInstant, UnixInstant>)
        requires
            load_ordering_ok(failure),
        ensures
            match r {
                Ok(v) => v == current,
                Err(v) => v != current,
            },
    {
        match compare_exchange_u32(&self.secs, current.secs, new.secs, success, failure) {
            Ok(v) => Ok(UnixInstant { secs: v }),
            Err(v) => Err(UnixInstant { secs: v }),
        }
    }

    /// Stores `new` if the current value is `current`. Unlike
    /// `compare_exchange`, this function is allowed to spuriously fail.
    /// Returns `Ok` with the previous value, which then equals `current`, if
    /// the value was written, and `Err` with the previous value otherwise.
    pub fn compare_exchange_weak(
        &self,
        current: UnixInstant,
        new: UnixInstant,
        success: Ordering,
        failure: Ordering,
    ) -> (r: Result<UnixInstant, UnixInstant>)
        requires
            load_ordering_ok(failure),
        ensures
            r matches Ok(v) ==> v == current,
    {
        match compare_exchange_weak_u32(&self.secs, current.secs, new.secs, success, failure) {
            Ok(v) => Ok(UnixInstant { secs: v }),
            Err(v) => Err(UnixInstant { secs: v }),
        }
    }

    /// Adds to the current value, returning the previous value. This
    /// operation wraps around on overflow.
    pub fn fetch_add(&self, value: Duration, ordering: Ordering) -> (r: UnixInstant) {
        UnixInstant { secs: self.secs.fetch_add(value.secs, ordering) }
    }

    /// Sets the value to the maximum of the current value and `value`,
    /// returning the previous value.
    pub fn fetch_max(&self, value: UnixInstant, ordering: Ordering) -> (r: UnixInstant) {
        UnixInstant { secs: self.secs.fetch_max(value.secs, ordering) }
    }

    /// Sets the value to the minimum of the current value and `value`,
    /// returning the previous value.
    pub fn fetch_min(&self, value: UnixInstant, ordering: Ordering) -> (r: UnixInstant) {
        UnixInstant { secs: self.secs.fetch_min(value.secs, ordering) }
    }

    /// Subtracts from the current value, returning the previous value. This
    /// operation wraps around on overflow.
    pub fn fetch_sub(&self, value: Duration, ordering: Ordering) -> (r: UnixInstant) {
        UnixInstant { secs: self.secs.fetch_sub(value.secs, ordering) }
    }
}

} // verus!
