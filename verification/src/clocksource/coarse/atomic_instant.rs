use vstd::prelude::*;
use core::sync::atomic::{AtomicU32, Ordering};
use crate::clocksource::coarse::{Duration, Instant};
use crate::clocksource::atomic_ops::{load_ordering_ok, store_ordering_ok, compare_exchange_u32, compare_exchange_weak_u32};

use vstd::std_specs::convert::TryFromSpecImpl;

verus! {

broadcast use crate::clocksource::group_time_views;

/// A monotonic clock reading in whole seconds, held in an `AtomicU32` so
/// that it can be read and changed through a shared reference.
#[derive(Default, Debug)]
pub struct AtomicInstant {
    secs: AtomicU32,
}

impl AtomicInstant {
    /// Create a new `AtomicInstant` holding the provided value.
    pub fn new(value: Instant) -> (r: Self) {
        Self { secs: AtomicU32::new(value.secs) }
    }

    /// Loads the value.
    ///
    /// See: [`core::sync::atomic::AtomicU32::load`] for a description of the
    /// memory orderings; a `Release` or `AcqRel` ordering is not allowed.
    pub fn load(&self, ordering: Ordering) -> (r: Instant)
        requires
            load_ordering_ok(ordering),
    {
        Instant { secs: self.secs.load(ordering) }
    }

    /// Stores a new value.
    ///
    /// See: [`core::sync::atomic::AtomicU32::store`] for a description of the
    /// memory orderings; an `Acquire` or `AcqRel` ordering is not allowed.
    pub fn store(&self, value: Instant, ordering: Ordering)
        requires
            store_ordering_ok(ordering),
    {
        self.secs.store(value.secs, ordering)
    }

    /// Replaces the value and returns the previous value.
    pub fn swap(&self, value: Instant, ordering: Ordering) -> (r: Instant) {
        Instant { secs: self.secs.swap(value.secs, ordering) }
    }

    /// Stores `new` if the current value is `current`. Returns `Ok` with the
    /// previous value, which then equals `current`, if the value was
    /// written, and `Err` with the previous value, which then differs from
    /// `current`, if it was not.
    pub fn compare_exchange(
        &self,
        current: Instant,
        new: Instant,
        success: Ordering,
        failure: Ordering,
    ) -> (r: Result<Instant, Instant>)
        requires
            load_ordering_ok(failure),
        ensures
            match r {
                Ok(v) => v == current,
                Err(v) => v != current,
            },
    {
        match compare_exchange_u32(&self.secs, current.secs, new.secs, success, failure) {
            Ok(v) => Ok(Instant { secs: v }),
            Err(v) => Err(Instant { secs: v }),
        }
    }

    /// Stores `new` if the current value is `current`. Unlike
    /// `compare_exchange`, this function is allowed to spuriously fail.
    /// Returns `Ok` with the previous value, which then equals `current`, if
    /// the value was written, and `Err` with the previous value otherwise.
    pub fn compare_exchange_weak(
        &self,
        current: Instant,
        new: Instant,
        success: Ordering,
        failure: Ordering,
    ) -> (r: Result<Instant, Instant>)
        requires
            load_ordering_ok(failure),
        ensures
            r matches Ok(v) ==> v == current,
    {
        match compare_exchange_weak_u32(&self.secs, current.secs, new.secs, success, failure) {
            Ok(v) => Ok(Instant { secs: v }),
            Err(v) => Err(Instant { secs: v }),
        }
    }

    /// Adds to the current value, returning the previous value. This
    /// operation wraps around on overflow.
    pub fn fetch_add(&self, value: Duration, ordering: Ordering) -> (r: Instant) {
        Instant { secs: self.secs.fetch_add(value.secs, ordering) }
    }

    /// Sets the value to the maximum of the current value and `value`,
    /// returning the previous value.
    pub fn fetch_max(&self, value: Instant, ordering: Ordering) -> (r: Instant) {
        Instant { secs: self.secs.fetch_max(value.secs, ordering) }
    }

    /// Sets the value to the minimum of the current value and `value`,
    /// returning the previous value.
    pub fn fetch_min(&self, value: Instant, ordering: Ordering) -> (r: Instant) {
        Instant { secs: self.secs.fetch_min(value.secs, ordering) }
    }

    /// Subtracts from the current value, returning the previous value. This
    /// operation wraps around on overflow.
    pub fn fetch_sub(&self, value: Duration, ordering: Ordering) -> (r: Instant) {
        Instant { secs: self.secs.fetch_sub(value.secs, ordering) }
    }
}

/// The error returned when a conversion to `AtomicInstant` fails.
pub struct TryFromError {
    kind: TryFromErrorKind,
}

enum TryFromErrorKind {
    Overflow,
}

impl TryFromError {
    /// A human readable description of the error.
    pub fn description(&self) -> (s: &'static str)
        ensures
            s@ == "can not convert to UnixInstant: value is too big"@,
    {
        match self.kind {
            TryFromErrorKind::Overflow => "can not convert to UnixInstant: value is too big",
        }
    }
}

impl AtomicInstant {
    /// The whole seconds of a precise instant as an atomic coarse instant,
    /// or an overflow error if they do not fit 32 bits.
    pub fn try_from_precise(other: crate::clocksource::precise::Instant) -> (r: Result<
        Self,
        TryFromError,
    >)
        ensures
            r is Ok <==> other@ / 1_000_000_000 <= u32::MAX,
    {
        let secs = other.ns / 1_000_000_000;
        if secs > 0xffff_ffffu64 {
            Err(TryFromError { kind: TryFromErrorKind::Overflow })
        } else {
            Ok(Self::new(Instant { secs: narrow(secs) }))
        }
    }
}

/// A count of seconds that fits 32 bits, as a `u32`.
fn narrow(secs: u64) -> (r: u32)
    requires
        secs <= u32::MAX,
    ensures
        r == secs,
{
    secs as u32
}

impl TryFrom<crate::clocksource::precise::Instant> for AtomicInstant {
    type Error = TryFromError;

    /// See `try_from_precise`.
    fn try_from(other: crate::clocksource::precise::Instant) -> (r: Result<Self, TryFromError>)
        ensures
            r is Ok <==> other@ / 1_000_000_000 <= u32::MAX,
    {
        Self::try_from_precise(other)
    }
}

impl TryFromSpecImpl<crate::clocksource::precise::Instant> for AtomicInstant {
    /// Verified callers use `try_from_precise`, whose contract states when
    /// it succeeds.
    open spec fn obeys_try_from_spec() -> bool {
        false
    }

    open spec fn try_from_spec(v: crate::clocksource::precise::Instant) -> Result<
        AtomicInstant,
        TryFromError,
    > {
        arbitrary()
    }
}
} // verus!
