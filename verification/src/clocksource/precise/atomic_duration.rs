use vstd::prelude::*;
use core::sync::atomic::{AtomicU64, Ordering};
use crate::clocksource::precise::{Duration};
use crate::clocksource::atomic_ops::{load_ordering_ok, store_ordering_ok, compare_exchange_u64, compare_exchange_weak_u64};

use vstd::std_specs::convert::TryFromSpecImpl;
use crate::clocksource::sys::std_duration_nanos;

verus! {

broadcast use crate::clocksource::group_time_views;

/// A duration measured in nanoseconds, held in an `AtomicU64` so that it can
/// be read and changed through a shared reference.
#[derive(Default, Debug)]
pub struct AtomicDuration {
    ns: AtomicU64,
}

impl AtomicDuration {
    /// Create a new `AtomicDuration` holding the provided value.
    pub fn new(value: Duration) -> (r: Self) {
        Self { ns: AtomicU64::new(value.ns) }
    }

    /// Create a new atomic duration from a whole number of seconds.
    pub fn from_secs(secs: u32) -> (r: Self) {
        Self::new(Duration::from_secs(secs))
    }

    /// Create a new atomic duration from a whole number of nanoseconds.
    pub fn from_nanos(nanos: u64) -> (r: Self) {
        Self::new(Duration::from_nanos(nanos))
    }

    /// Loads the value.
    ///
    /// See: [`core::sync::atomic::AtomicU64::load`] for a description of the
    /// memory orderings; a `Release` or `AcqRel` ordering is not allowed.
    pub fn load(&self, ordering: Ordering) -> (r: Duration)
        requires
            load_ordering_ok(ordering),
    {
        Duration { ns: self.ns.load(ordering) }
    }

    /// Stores a new value.
    ///
    /// See: [`core::sync::atomic::AtomicU64::store`] for a description of the
    /// memory orderings; an `Acquire` or `AcqRel` ordering is not allowed.
    pub fn store(&self, value: Duration, ordering: Ordering)
        requires
            store_ordering_ok(ordering),
    {
        self.ns.store(value.ns, ordering)
    }

    /// Replaces the value and returns the previous value.
    pub fn swap(&self, value: Duration, ordering: Ordering) -> (r: Duration) {
        Duration { ns: self.ns.swap(value.ns, ordering) }
    }

    /// Stores `new` if the current value is `current`. Returns `Ok` with the
    /// previous value, which then equals `current`, if the value was
    /// written, and `Err` with the previous value, which then differs from
    /// `current`, if it was not.
    pub fn compare_exchange(
        &self,
        current: Duration,
        new: Duration,
        success: Ordering,
        failure: Ordering,
    ) -> (r: Result<Duration, Duration>)
        requires
            load_ordering_ok(failure),
        ensures
            match r {
                Ok(v) => v == current,
                Err(v) => v != current,
            },
    {
        match compare_exchange_u64(&self.ns, current.ns, new.ns, success, failure) {
            Ok(v) => Ok(Duration { ns: v }),
            Err(v) => Err(Duration { ns: v }),
        }
    }

    /// Stores `new` if the current value is `current`. Unlike
    /// `compare_exchange`, this function is allowed to spuriously fail.
    /// Returns `Ok` with the previous value, which then equals `current`, if
    /// the value was written, and `Err` with the previous value otherwise.
    pub fn compare_exchange_weak(
        &self,
        current: Duration,
        new: Duration,
        success: Ordering,
        failure: Ordering,
    ) -> (r: Result<Duration, Duration>)
        requires
            load_ordering_ok(failure),
        ensures
            r matches Ok(v) ==> v == current,
    {
        match compare_exchange_weak_u64(&self.ns, current.ns, new.ns, success, failure) {
            Ok(v) => Ok(Duration { ns: v }),
            Err(v) => Err(Duration { ns: v }),
        }
    }

    /// Adds to the current value, returning the previous value. This
    /// operation wraps around on overflow.
    pub fn fetch_add(&self, value: Duration, ordering: Ordering) -> (r: Duration) {
        Duration { ns: self.ns.fetch_add(value.ns, ordering) }
    }

    /// Sets the value to the maximum of the current value and `value`,
    /// returning the previous value.
    pub fn fetch_max(&self, value: Duration, ordering: Ordering) -> (r: Duration) {
        Duration { ns: self.ns.fetch_max(value.ns, ordering) }
    }

    /// Sets the value to the minimum of the current value and `value`,
    /// returning the previous value.
    pub fn fetch_min(&self, value: Duration, ordering: Ordering) -> (r: Duration) {
        Duration { ns: self.ns.fetch_min(value.ns, ordering) }
    }

    /// Subtracts from the current value, returning the previous value. This
    /// operation wraps around on overflow.
    pub fn fetch_sub(&self, value: Duration, ordering: Ordering) -> (r: Duration) {
        Duration { ns: self.ns.fetch_sub(value.ns, ordering) }
    }
}

/// The error returned when a conversion to `AtomicDuration` fails.
pub struct TryFromError {
    kind: TryFromErrorKind,
}

enum TryFromErrorKind {
    Overflow,
}

impl TryFromError {
    /// A human readable description of the error.
    pub fn description(&self) -> (s: &'static str)
        ensures
            s@ == "can not convert to Duration: value is too big"@,
    {
        match self.kind {
            TryFromErrorKind::Overflow => "can not convert to Duration: value is too big",
        }
    }
}

impl AtomicDuration {
    /// An atomic duration of the given nanoseconds, or an overflow error if
    /// they do not fit 64 bits.
    pub fn try_from_nanos(nanos: u128) -> (r: Result<Self, TryFromError>)
        ensures
            r is Ok <==> nanos <= u64::MAX,
    {
        match Duration::try_from_nanos(nanos) {
            Ok(d) => Ok(Self::new(d)),
            Err(_) => Err(TryFromError { kind: TryFromErrorKind::Overflow }),
        }
    }
}

impl TryFrom<core::time::Duration> for AtomicDuration {
    type Error = TryFromError;

    /// The nanoseconds of a standard duration, or an overflow error if they
    /// do not fit 64 bits; see `try_from_nanos`.
    fn try_from(other: core::time::Duration) -> (r: Result<Self, TryFromError>) {
        Self::try_from_nanos(std_duration_nanos(other))
    }
}

impl TryFromSpecImpl<core::time::Duration> for AtomicDuration {
    /// Verified callers use `try_from_nanos`, whose contract states when it
    /// succeeds.
    open spec fn obeys_try_from_spec() -> bool {
        false
    }

    open spec fn try_from_spec(v: core::time::Duration) -> Result<AtomicDuration, TryFromError> {
        arbitrary()
    }
}
} // verus!
