use vstd::prelude::*;
use core::ops::{Add, Div, Mul, Rem, Sub};
use vstd::std_specs::ops::{AddSpecImpl, DivSpecImpl, MulSpecImpl, RemSpecImpl, SubSpecImpl};
use crate::clocksource::{MICROS_PER_SEC, MILLIS_PER_SEC, NANOS_PER_SEC};

use vstd::std_specs::convert::TryFromSpecImpl;
use crate::clocksource::sys::std_duration_secs;

verus! {

/// A duration measured in whole seconds, stored in a `u32`. The longest
/// representable duration is about 136 years.
#[derive(Copy, Clone, Default, Debug, Hash, PartialEq, Eq, Structural, PartialOrd, Ord)]
pub struct Duration {
    pub(crate) secs: u32,
}

impl View for Duration {
    type V = u32;

    /// The number of whole seconds.
    closed spec fn view(&self) -> u32 {
        self.secs
    }
}

/// The view of a value is its stored reading.
pub(crate) broadcast proof fn lemma_view_duration(x: Duration)
    ensures
        #[trigger] x@ == x.secs,
{
}

impl Duration {
    /// The duration of `secs` whole seconds.
    pub closed spec fn of(secs: u32) -> Duration {
        Duration { secs }
    }

    /// A duration is determined by its number of seconds.
    pub broadcast proof fn lemma_of(secs: u32)
        ensures
            (#[trigger] Duration::of(secs))@ == secs,
    {
    }

    /// Two durations are equal when they hold the same number of seconds.
    pub proof fn lemma_eq(a: Duration, b: Duration)
        ensures
            (a@ == b@) <==> a == b,
    {
    }

    /// Creates a new `Duration` from the specified number of whole seconds.
    pub fn from_secs(secs: u32) -> (r: Self)
        ensures
            r@ == secs,
    {
        Self { secs }
    }

    /// Returns the number of whole seconds contained by this `Duration`.
    pub fn as_secs(&self) -> (r: u32)
        ensures
            r == self@,
    {
        self.secs
    }

    /// Returns the number of microseconds contained by this `Duration`.
    pub fn as_micros(&self) -> (r: u64)
        ensures
            r == self@ * MICROS_PER_SEC,
    {
        self.secs as u64 * MICROS_PER_SEC
    }

    /// Returns the number of milliseconds contained by this `Duration`.
    pub fn as_millis(&self) -> (r: u64)
        ensures
            r == self@ * MILLIS_PER_SEC,
    {
        self.secs as u64 * MILLIS_PER_SEC
    }

    /// Returns the number of nanoseconds contained by this `Duration`.
    pub fn as_nanos(&self) -> (r: u64)
        ensures
            r == self@ * NANOS_PER_SEC,
    {
        self.secs as u64 * NANOS_PER_SEC
    }
}

impl Add<Duration> for Duration {
    type Output = Duration;

    fn add(self, rhs: Duration) -> (r: Duration) {
        Duration { secs: self.secs + rhs.secs }
    }
}

impl AddSpecImpl<Duration> for Duration {
    open spec fn obeys_add_spec() -> bool {
        true
    }

    open spec fn add_req(self, rhs: Duration) -> bool {
        self@ + rhs@ <= u32::MAX
    }

    open spec fn add_spec(self, rhs: Duration) -> Duration {
        Duration::of((self@ + rhs@) as u32)
    }
}

impl Sub<Duration> for Duration {
    type Output = Duration;

    fn sub(self, rhs: Duration) -> (r: Duration) {
        Duration { secs: self.secs - rhs.secs }
    }
}

impl SubSpecImpl<Duration> for Duration {
    open spec fn obeys_sub_spec() -> bool {
        true
    }

    open spec fn sub_req(self, rhs: Duration) -> bool {
        self@ >= rhs@
    }

    open spec fn sub_spec(self, rhs: Duration) -> Duration {
        Duration::of((self@ - rhs@) as u32)
    }
}

impl Mul<u32> for Duration {
    type Output = Duration;

    fn mul(self, rhs: u32) -> (r: Duration) {
        Duration { secs: self.secs * rhs }
    }
}

impl MulSpecImpl<u32> for Duration {
    open spec fn obeys_mul_spec() -> bool {
        true
    }

    open spec fn mul_req(self, rhs: u32) -> bool {
        self@ * rhs <= u32::MAX
    }

    open spec fn mul_spec(self, rhs: u32) -> Duration {
        Duration::of((self@ * rhs) as u32)
    }
}

impl Div<u32> for Duration {
    type Output = Duration;

    fn div(self, rhs: u32) -> (r: Duration) {
        Duration { secs: self.secs / rhs }
    }
}

impl DivSpecImpl<u32> for Duration {
    open spec fn obeys_div_spec() -> bool {
        true
    }

    open spec fn div_req(self, rhs: u32) -> bool {
        rhs != 0
    }

    open spec fn div_spec(self, rhs: u32) -> Duration {
        Duration::of((self@ / rhs) as u32)
    }
}

impl Rem<Duration> for Duration {
    type Output = Duration;

    fn rem(self, rhs: Duration) -> (r: Duration) {
        Duration { secs: self.secs % rhs.secs }
    }
}

impl RemSpecImpl<Duration> for Duration {
    open spec fn obeys_rem_spec() -> bool {
        true
    }

    open spec fn rem_req(self, rhs: Duration) -> bool {
        rhs@ != 0
    }

    open spec fn rem_spec(self, rhs: Duration) -> Duration {
        Duration::of((self@ % rhs@) as u32)
    }
}

/// The error returned when a conversion to a `Duration` overflows.
pub struct TryFromError {
    kind: TryFromErrorKind,
}

enum TryFromErrorKind {
    Overflow,
}

impl TryFromError {
    /// A human readable description of the error.
    pub fn description(&self) -> (s: &'static str)
        ensures
            s@ == "can not convert to Duration: value is too big"@,
    {
        match self.kind {
            TryFromErrorKind::Overflow => "can not convert to Duration: value is too big",
        }
    }
}

impl Duration {
    /// A duration of the given whole seconds, or an overflow error if they
    /// do not fit 32 bits.
    pub fn try_from_secs(secs: u64) -> (r: Result<Self, TryFromError>)
        ensures
            match r {
                Ok(d) => secs <= u32::MAX && d@ == secs,
                Err(_) => secs > u32::MAX,
            },
    {
        if secs > u32::MAX as u64 {
            Err(TryFromError { kind: TryFromErrorKind::Overflow })
        } else {
            Ok(Self::from_secs(secs as u32))
        }
    }
}

impl TryFrom<core::time::Duration> for Duration {
    type Error = TryFromError;

    /// The whole seconds of a standard duration, or an overflow error if
    /// they do not fit 32 bits; see `try_from_secs`.
    fn try_from(other: core::time::Duration) -> (r: Result<Self, TryFromError>) {
        Self::try_from_secs(std_duration_secs(other))
    }
}

impl TryFromSpecImpl<core::time::Duration> for Duration {
    /// Verified callers use `try_from_secs`, whose contract states the
    /// result.
    open spec fn obeys_try_from_spec() -> bool {
        false
    }

    open spec fn try_from_spec(v: core::time::Duration) -> Result<Duration, TryFromError> {
        arbitrary()
    }
}
} // verus!
