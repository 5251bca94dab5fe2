use vstd::prelude::*;
use core::ops::{Add, Div, Mul, Rem, Sub};
use vstd::std_specs::ops::{AddSpecImpl, DivSpecImpl, MulSpecImpl, RemSpecImpl, SubSpecImpl};
use vstd::std_specs::convert::FromSpecImpl;

use vstd::std_specs::convert::TryFromSpecImpl;
use crate::clocksource::sys::std_duration_nanos;

verus! {

broadcast use crate::clocksource::coarse::duration::lemma_view_duration;

/// A duration measured in nanoseconds, stored in a `u64`. The longest
/// representable duration is about 584 years.
#[derive(Copy, Clone, Default, Debug, Hash, PartialEq, Eq, Structural, PartialOrd, Ord)]
pub struct Duration {
    pub(crate) ns: u64,
}

impl View for Duration {
    type V = u64;

    /// The number of nanoseconds.
    closed spec fn view(&self) -> u64 {
        self.ns
    }
}

/// The view of a value is its stored reading.
pub(crate) broadcast proof fn lemma_view_duration(x: Duration)
    ensures
        #[trigger] x@ == x.ns,
{
}

impl Duration {
    /// The value with the given reading.
    pub closed spec fn of(v: u64) -> Duration {
        Duration { ns: v }
    }

    /// The reading of `of(v)` is `v`.
    pub broadcast proof fn lemma_of(v: u64)
        ensures
            (#[trigger] Duration::of(v))@ == v,
    {
    }

    /// Two values are equal exactly when their readings are.
    pub proof fn lemma_eq(x: Duration, y: Duration)
        ensures
            (x@ == y@) <==> x == y,
    {
    }
}

impl Duration {
    /// Create a new `Duration` from a whole number of seconds.
    pub fn from_secs(secs: u32) -> (r: Self)
        ensures
            r@ == secs * 1_000_000_000,
    {
        Self { ns: secs as u64 * 1_000_000_000 }
    }

    /// Create a new `Duration` from a whole number of milliseconds.
    pub fn from_millis(millis: u32) -> (r: Self)
        ensures
            r@ == millis * 1_000_000,
    {
        Self { ns: millis as u64 * 1_000_000 }
    }

    /// Create a new `Duration` from a whole number of milliseconds, or an
    /// error if the number of nanoseconds does not fit a `u64`.
    pub fn try_from_millis(millis: u64) -> (r: Result<Self, TryFromError>)
        ensures
            match r {
                Ok(d) => d@ == millis * 1_000_000,
                Err(_) => millis * 1_000_000 > u64::MAX,
            },
    {
        match millis.checked_mul(1_000_000) {
            Some(ns) => Ok(Self { ns }),
            None => Err(TryFromError { kind: TryFromErrorKind::Overflow }),
        }
    }

    /// Create a new `Duration` from a whole number of microseconds.
    pub fn from_micros(micros: u32) -> (r: Self)
        ensures
            r@ == micros * 1_000,
    {
        Self { ns: micros as u64 * 1_000 }
    }

    /// Create a new `Duration` from a whole number of microseconds, or an
    /// error if the number of nanoseconds does not fit a `u64`.
    pub fn try_from_micros(micros: u64) -> (r: Result<Self, TryFromError>)
        ensures
            match r {
                Ok(d) => d@ == micros * 1_000,
                Err(_) => micros * 1_000 > u64::MAX,
            },
    {
        match micros.checked_mul(1_000) {
            Some(ns) => Ok(Self { ns }),
            None => Err(TryFromError { kind: TryFromErrorKind::Overflow }),
        }
    }

    /// Create a new `Duration` from a whole number of nanoseconds.
    pub fn from_nanos(nanos: u64) -> (r: Self)
        ensures
            r@ == nanos,
    {
        Self { ns: nanos }
    }

    /// Returns the whole number of nanoseconds within the `Duration`.
    pub fn as_nanos(&self) -> (r: u64)
        ensures
            r == self@,
    {
        self.ns
    }

    /// Returns the whole number of microseconds within the `Duration`.
    pub fn as_micros(&self) -> (r: u64)
        ensures
            r == self@ / 1_000,
    {
        self.ns / 1_000
    }

    /// Returns the whole number of milliseconds within the `Duration`.
    pub fn as_millis(&self) -> (r: u64)
        ensures
            r == self@ / 1_000_000,
    {
        self.ns / 1_000_000
    }

    /// Returns the number of whole seconds represented by this `Duration`.
    pub fn as_secs(&self) -> (r: u64)
        ensures
            r == self@ / 1_000_000_000,
    {
        self.ns / 1_000_000_000
    }

    /// Returns the remaining number of nanoseconds in this `Duration` when
    /// ignoring the whole number of seconds.
    pub fn subsec_nanos(&self) -> (r: u32)
        ensures
            r == self@ % 1_000_000_000,
    {
        (self.ns % 1_000_000_000) as u32
    }
}

impl Add<Duration> for Duration {
    type Output = Duration;

    fn add(self, rhs: Duration) -> (r: Duration) {
        Duration { ns: self.ns + rhs.ns }
    }
}

impl AddSpecImpl<Duration> for Duration {
    open spec fn obeys_add_spec() -> bool {
        true
    }

    open spec fn add_req(self, rhs: Duration) -> bool {
        self@ + rhs@ <= u64::MAX
    }

    open spec fn add_spec(self, rhs: Duration) -> Duration {
        Duration::of((self@ + rhs@) as u64)
    }
}

impl Sub<Duration> for Duration {
    type Output = Duration;

    fn sub(self, rhs: Duration) -> (r: Duration) {
        Duration { ns: self.ns - rhs.ns }
    }
}

impl SubSpecImpl<Duration> for Duration {
    open spec fn obeys_sub_spec() -> bool {
        true
    }

    open spec fn sub_req(self, rhs: Duration) -> bool {
        self@ >= rhs@
    }

    open spec fn sub_spec(self, rhs: Duration) -> Duration {
        Duration::of((self@ - rhs@) as u64)
    }
}

impl Mul<u64> for Duration {
    type Output = Duration;

    fn mul(self, rhs: u64) -> (r: Duration) {
        Duration { ns: self.ns * rhs }
    }
}

impl MulSpecImpl<u64> for Duration {
    open spec fn obeys_mul_spec() -> bool {
        true
    }

    open spec fn mul_req(self, rhs: u64) -> bool {
        self@ * rhs <= u64::MAX
    }

    open spec fn mul_spec(self, rhs: u64) -> Duration {
        Duration::of((self@ * rhs) as u64)
    }
}

impl Div<u64> for Duration {
    type Output = Duration;

    fn div(self, rhs: u64) -> (r: Duration) {
        Duration { ns: self.ns / rhs }
    }
}

impl DivSpecImpl<u64> for Duration {
    open spec fn obeys_div_spec() -> bool {
        true
    }

    open spec fn div_req(self, rhs: u64) -> bool {
        rhs != 0
    }

    open spec fn div_spec(self, rhs: u64) -> Duration {
        Duration::of((self@ / rhs) as u64)
    }
}

impl Rem<Duration> for Duration {
    type Output = Duration;

    fn rem(self, rhs: Duration) -> (r: Duration) {
        Duration { ns: self.ns % rhs.ns }
    }
}

impl RemSpecImpl<Duration> for Duration {
    open spec fn obeys_rem_spec() -> bool {
        true
    }

    open spec fn rem_req(self, rhs: Duration) -> bool {
        rhs@ != 0
    }

    open spec fn rem_spec(self, rhs: Duration) -> Duration {
        Duration::of((self@ % rhs@) as u64)
    }
}

impl From<crate::clocksource::coarse::Duration> for Duration {
    fn from(other: crate::clocksource::coarse::Duration) -> (r: Self) {
        Self::from_secs(other.as_secs())
    }
}

impl FromSpecImpl<crate::clocksource::coarse::Duration> for Duration {
    open spec fn obeys_from_spec() -> bool {
        true
    }

    open spec fn from_spec(v: crate::clocksource::coarse::Duration) -> Duration {
        Duration::of((v@ * 1_000_000_000) as u64)
    }
}

/// The error returned when a conversion to a `Duration` overflows.
pub struct TryFromError {
    kind: TryFromErrorKind,
}

enum TryFromErrorKind {
    Overflow,
}

impl TryFromError {
    /// A human readable description of the error.
    pub fn description(&self) -> (s: &'static str)
        ensures
            s@ == "can not convert to Duration: value is too big"@,
    {
        match self.kind {
            TryFromErrorKind::Overflow => "can not convert to Duration: value is too big",
        }
    }
}

impl Duration {
    /// A duration of the given nanoseconds, or an overflow error if they do
    /// not fit 64 bits.
    pub fn try_from_nanos(nanos: u128) -> (r: Result<Self, TryFromError>)
        ensures
            match r {
                Ok(d) => nanos <= u64::MAX && d@ == nanos,
                Err(_) => nanos > u64::MAX,
            },
    {
        if nanos > u64::MAX as u128 {
            Err(TryFromError { kind: TryFromErrorKind::Overflow })
        } else {
            Ok(Self::from_nanos(nanos as u64))
        }
    }
}

impl TryFrom<core::time::Duration> for Duration {
    type Error = TryFromError;

    /// The nanoseconds of a standard duration, or an overflow error if they
    /// do not fit 64 bits; see `try_from_nanos`.
    fn try_from(other: core::time::Duration) -> (r: Result<Self, TryFromError>) {
        Self::try_from_nanos(std_duration_nanos(other))
    }
}

impl TryFromSpecImpl<core::time::Duration> for Duration {
    /// Verified callers use `try_from_nanos`, whose contract states the
    /// result.
    open spec fn obeys_try_from_spec() -> bool {
        false
    }

    open spec fn try_from_spec(v: core::time::Duration) -> Result<Duration, TryFromError> {
        arbitrary()
    }
}
} // verus!
