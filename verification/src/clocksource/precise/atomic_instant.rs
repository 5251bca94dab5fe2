use vstd::prelude::*;
use core::sync::atomic::{AtomicU64, Ordering};
use crate::clocksource::precise::{Duration, Instant};
use crate::clocksource::atomic_ops::{load_ordering_ok, store_ordering_ok, compare_exchange_u64, compare_exchange_weak_u64};

verus! {

broadcast use crate::clocksource::group_time_views;

/// A monotonic clock reading in nanoseconds, held in an `AtomicU64` so that
/// it can be read and changed through a shared reference.
#[derive(Default, Debug)]
pub struct AtomicInstant {
    ns: AtomicU64,
}

impl AtomicInstant {
    /// Create a new `AtomicInstant` holding the provided value.
    pub fn new(value: Instant) -> (r: Self) {
        Self { ns: AtomicU64::new(value.ns) }
    }

    /// Loads the value.
    ///
    /// See: [`core::sync::atomic::AtomicU64::load`] for a description of the
    /// memory orderings; a `Release` or `AcqRel` ordering is not allowed.
    pub fn load(&self, ordering: Ordering) -> (r: Instant)
        requires
            load_ordering_ok(ordering),
    {
        Instant { ns: self.ns.load(ordering) }
    }

    /// Stores a new value.
    ///
    /// See: [`core::sync::atomic::AtomicU64::store`] for a description of the
    /// memory orderings; an `Acquire` or `AcqRel` ordering is not allowed.
    pub fn store(&self, value: Instant, ordering: Ordering)
        requires
            store_ordering_ok(ordering),
    {
        self.ns.store(value.ns, ordering)
    }

    /// Replaces the value and returns the previous value.
    pub fn swap(&self, value: Instant, ordering: Ordering) -> (r: Instant) {
        Instant { ns: self.ns.swap(value.ns, ordering) }
    }

    /// Stores `new` if the current value is `current`. Returns `Ok` with the
    /// previous value, which then equals `current`, if the value was
    /// written, and `Err` with the previous value, which then differs from
    /// `current`, if it was not.
    pub fn compare_exchange(
        &self,
        current: Instant,
        new: Instant,
        success: Ordering,
        failure: Ordering,
    ) -> (r: Result<Instant, Instant>)
        requires
            load_ordering_ok(failure),
        ensures
            match r {
                Ok(v) => v == current,
                Err(v) => v != current,
            },
    {
        match compare_exchange_u64(&self.ns, current.ns, new.ns, success, failure) {
            Ok(v) => Ok(Instant { ns: v }),
            Err(v) => Err(Instant { ns: v }),
        }
    }

    /// Stores `new` if the current value is `current`. Unlike
    /// `compare_exchange`, this function is allowed to spuriously fail.
    /// Returns `Ok` with the previous value, which then equals `current`, if
    /// the value was written, and `Err` with the previous value otherwise.
    pub fn compare_exchange_weak(
        &self,
        current: Instant,
        new: Instant,
        success: Ordering,
        failure: Ordering,
    ) -> (r: Result<Instant, Instant>)
        requires
            load_ordering_ok(failure),
        ensures
            r matches Ok(v) ==> v == current,
    {
        match compare_exchange_weak_u64(&self.ns, current.ns, new.ns, success, failure) {
            Ok(v) => Ok(Instant { ns: v }),
            Err(v) => Err(Instant { ns: v }),
        }
    }

    /// Adds to the current value, returning the previous value. This
    /// operation wraps around on overflow.
    pub fn fetch_add(&self, value: Duration, ordering: Ordering) -> (r: Instant) {
        Instant { ns: self.ns.fetch_add(value.ns, ordering) }
    }

    /// Sets the value to the maximum of the current value and `value`,
    /// returning the previous value.
    pub fn fetch_max(&self, value: Instant, ordering: Ordering) -> (r: Instant) {
        Instant { ns: self.ns.fetch_max(value.ns, ordering) }
    }

    /// Sets the value to the minimum of the current value and `value`,
    /// returning the previous value.
    pub fn fetch_min(&self, value: Instant, ordering: Ordering) -> (r: Instant) {
        Instant { ns: self.ns.fetch_min(value.ns, ordering) }
    }

    /// Subtracts from the current value, returning the previous value. This
    /// operation wraps around on overflow.
    pub fn fetch_sub(&self, value: Duration, ordering: Ordering) -> (r: Instant) {
        Instant { ns: self.ns.fetch_sub(value.ns, ordering) }
    }
}

} // verus!
