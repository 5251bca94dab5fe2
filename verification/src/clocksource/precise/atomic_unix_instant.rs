use vstd::prelude::*;
use core::sync::atomic::{AtomicU64, Ordering};
use crate::clocksource::precise::{Duration, UnixInstant};
use crate::clocksource::atomic_ops::{load_ordering_ok, store_ordering_ok, compare_exchange_u64, compare_exchange_weak_u64};

use vstd::std_specs::convert::TryFromSpecImpl;
use crate::clocksource::sys::{std_duration_nanos, system_time_since_epoch};

verus! {

broadcast use crate::clocksource::group_time_views;

/// A system clock reading in nanoseconds since the unix epoch, held in an
/// `AtomicU64` so that it can be read and changed through a shared reference.
#[derive(Default, Debug)]
pub struct AtomicUnixInstant {
    ns: AtomicU64,
}

impl AtomicUnixInstant {
    /// Create a new `AtomicUnixInstant` holding the provided value.
    pub fn new(value: UnixInstant) -> (r: Self) {
        Self { ns: AtomicU64::new(value.ns) }
    }

    /// Create a new atomic unix instant representing the current instant.
    pub fn now() -> (r: Self) {
        Self::new(UnixInstant::now())
    }

    /// Loads the value.
    ///
    /// See: [`core::sync::atomic::AtomicU64::load`] for a description of the
    /// memory orderings; a `Release` or `AcqRel` ordering is not allowed.
    pub fn load(&self, ordering: Ordering) -> (r: UnixInstant)
        requires
            load_ordering_ok(ordering),
    {
        UnixInstant { ns: self.ns.load(ordering) }
    }

    /// Stores a new value.
    ///
    /// See: [`core::sync::atomic::AtomicU64::store`] for a description of the
    /// memory orderings; an `Acquire` or `AcqRel` ordering is not allowed.
    pub fn store(&self, value: UnixInstant, ordering: Ordering)
        requires
            store_ordering_ok(ordering),
    {
        self.ns.store(value.ns, ordering)
    }

    /// Replaces the value and returns the previous value.
    pub fn swap(&self, value: UnixInstant, ordering: Ordering) -> (r: UnixInstant) {
        UnixInstant { ns: self.ns.swap(value.ns, ordering) }
    }

    /// Stores `new` if the current value is `current`. Returns `Ok` with the
    /// previous value, which then equals `current`, if the value was
    /// written, and `Err` with the previous value, which then differs from
    /// `current`, if it was not.
    pub fn compare_exchange(
        &self,
        current: UnixInstant,
        new: UnixInstant,
        success: Ordering,
        failure: Ordering,
    ) -> (r: Result<UnixInstant, UnixInstant>)
        requires
            load_ordering_ok(failure),
        ensures
            match r {
                Ok(v) => v == current,
                Err(v) => v != current,
            },
    {
        match compare_exchange_u64(&self.ns, current.ns, new.ns, success, failure) {
            Ok(v) => Ok(UnixInstant { ns: v }),
            Err(v) => Err(UnixInstant { ns: v }),
        }
    }

    /// Stores `new` if the current value is `current`. Unlike
    /// `compare_exchange`, this function is allowed to spuriously fail.
    /// Returns `Ok` with the previous value, which then equals `current`, if
    /// the value was written, and `Err` with the previous value otherwise.
    pub fn compare_exchange_weak(
        &self,
        current: UnixInstant,
        new: UnixInstant,
        success: Ordering,
        failure: Ordering,
    ) -> (r: Result<UnixInstant, UnixInstant>)
        requires
            load_ordering_ok(failure),
        ensures
            r matches Ok(v) ==> v == current,
    {
        match compare_exchange_weak_u64(&self.ns, current.ns, new.ns, success, failure) {
            Ok(v) => Ok(UnixInstant { ns: v }),
            Err(v) => Err(UnixInstant { ns: v }),
        }
    }

    /// Adds to the current value, returning the previous value. This
    /// operation wraps around on overflow.
    pub fn fetch_add(&self, value: Duration, ordering: Ordering) -> (r: UnixInstant) {
        UnixInstant { ns: self.ns.fetch_add(value.ns, ordering) }
    }

    /// Sets the value to the maximum of the current value and `value`,
    /// returning the previous value.
    pub fn fetch_max(&self, value: UnixInstant, ordering: Ordering) -> (r: UnixInstant) {
        UnixInstant { ns: self.ns.fetch_max(value.ns, ordering) }
    }

    /// Sets the value to the minimum of the current value and `value`,
    /// returning the previous value.
    pub fn fetch_min(&self, value: UnixInstant, ordering: Ordering) -> (r: UnixInstant) {
        UnixInstant { ns: self.ns.fetch_min(value.ns, ordering) }
    }

    /// Subtracts from the current value, returning the previous value. This
    /// operation wraps around on overflow.
    pub fn fetch_sub(&self, value: Duration, ordering: Ordering) -> (r: UnixInstant) {
        UnixInstant { ns: self.ns.fetch_sub(value.ns, ordering) }
    }
}

/// The error returned when a conversion to `AtomicUnixInstant` fails.
pub struct TryFromError {
    kind: TryFromErrorKind,
}

enum TryFromErrorKind {
    Overflow,
    BeforeEpoch,
}

impl TryFromError {
    /// A human readable description of the error.
    pub fn description(&self) -> (s: &'static str)
        ensures
            s@ == (if self.is_before_epoch() {
                "can not convert to UnixInstant: value is before unix epoch"@
            } else {
                "can not convert to UnixInstant: value is too big"@
            }),
    {
        match self.kind {
            TryFromErrorKind::Overflow => "can not convert to UnixInstant: value is too big",
            TryFromErrorKind::BeforeEpoch => {
                "can not convert to UnixInstant: value is before unix epoch"
            },
        }
    }
}

impl TryFromError {
    /// The time was before the unix epoch.
    pub closed spec fn is_before_epoch(&self) -> bool {
        self.kind is BeforeEpoch
    }
}

impl AtomicUnixInstant {
    /// An atomic instant for the time `since_epoch` after the unix epoch, or
    /// `None` for a time before it: an error for a time before the epoch,
    /// and an overflow error if the nanoseconds do not fit 64 bits.
    pub fn try_from_since_epoch(since_epoch: Option<u128>) -> (r: Result<Self, TryFromError>)
        ensures
            match since_epoch {
                None => r matches Err(e) && e.is_before_epoch(),
                Some(n) => match r {
                    Ok(_) => n <= u64::MAX,
                    Err(e) => n > u64::MAX && !e.is_before_epoch(),
                },
            },
    {
        match since_epoch {
            None => Err(TryFromError { kind: TryFromErrorKind::BeforeEpoch }),
            Some(n) => match Duration::try_from_nanos(n) {
                Ok(d) => Ok(Self::new(UnixInstant { ns: d.ns })),
                Err(_) => Err(TryFromError { kind: TryFromErrorKind::Overflow }),
            },
        }
    }
}

impl TryFrom<std::time::SystemTime> for AtomicUnixInstant {
    type Error = TryFromError;

    /// The system time as nanoseconds since the unix epoch; see
    /// `try_from_since_epoch`.
    fn try_from(other: std::time::SystemTime) -> (r: Result<Self, TryFromError>) {
        let since_epoch = match system_time_since_epoch(other) {
            Some(d) => Some(std_duration_nanos(d)),
            None => None,
        };
        Self::try_from_since_epoch(since_epoch)
    }
}

impl TryFromSpecImpl<std::time::SystemTime> for AtomicUnixInstant {
    /// Verified callers use `try_from_since_epoch`, whose contract states
    /// the result.
    open spec fn obeys_try_from_spec() -> bool {
        false
    }

    open spec fn try_from_spec(v: std::time::SystemTime) -> Result<AtomicUnixInstant, TryFromError> {
        arbitrary()
    }
}
} // verus!
