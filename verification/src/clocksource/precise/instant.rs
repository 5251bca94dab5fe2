use vstd::prelude::*;
use core::ops::{Add, Sub};
use vstd::std_specs::ops::{AddSpecImpl, SubSpecImpl};
use vstd::std_specs::convert::FromSpecImpl;
use crate::clocksource::precise::Duration;

verus! {

broadcast use {
    crate::clocksource::precise::duration::lemma_view_duration,
    crate::clocksource::coarse::instant::lemma_view_instant,
};

/// A measurement of a monotonically nondecreasing clock in nanoseconds.
///
/// It is opaque and useful only with the duration types. The reading is a
/// `u64`, so it wraps after about 584 years.
#[derive(Copy, Clone, Default, Debug, Hash, PartialEq, Eq, Structural, PartialOrd, Ord)]
pub struct Instant {
    pub(crate) ns: u64,
}

impl View for Instant {
    type V = u64;

    /// The clock reading in nanoseconds.
    closed spec fn view(&self) -> u64 {
        self.ns
    }
}

/// The view of a value is its stored reading.
pub(crate) broadcast proof fn lemma_view_instant(x: Instant)
    ensures
        #[trigger] x@ == x.ns,
{
}

impl Instant {
    /// The value with the given reading.
    pub closed spec fn of(v: u64) -> Instant {
        Instant { ns: v }
    }

    /// The reading of `of(v)` is `v`.
    pub broadcast proof fn lemma_of(v: u64)
        ensures
            (#[trigger] Instant::of(v))@ == v,
    {
    }

    /// Two values are equal exactly when their readings are.
    pub proof fn lemma_eq(x: Instant, y: Instant)
        ensures
            (x@ == y@) <==> x == y,
    {
    }
}

impl Instant {
    /// Return the elapsed duration from some earlier instant until this
    /// instant.
    pub fn duration_since(&self, earlier: Self) -> (r: Duration)
        requires
            self@ >= earlier@,
        ensures
            r@ == self@ - earlier@,
    {
        Duration::from_nanos(self.ns - earlier.ns)
    }

    /// Return the elapsed duration from some earlier instant until this
    /// instant, or `None` if `earlier` is later than this instant.
    pub fn checked_duration_since(&self, earlier: Self) -> (r: Option<Duration>)
        ensures
            match r {
                Some(d) => self@ >= earlier@ && d@ == self@ - earlier@,
                None => self@ < earlier@,
            },
    {
        match self.ns.checked_sub(earlier.ns) {
            Some(v) => Some(Duration::from_nanos(v)),
            None => None,
        }
    }

    /// Return the instant that is `duration` before this one, or `None` if
    /// that would be before the start of the clock.
    pub fn checked_sub(&self, duration: Duration) -> (r: Option<Self>)
        ensures
            match r {
                Some(t) => self@ >= duration@ && t@ == self@ - duration@,
                None => self@ < duration@,
            },
    {
        match self.ns.checked_sub(duration.as_nanos()) {
            Some(v) => Some(Self { ns: v }),
            None => None,
        }
    }
}

impl Add<Duration> for Instant {
    type Output = Instant;

    fn add(self, rhs: Duration) -> (r: Instant) {
        Instant { ns: self.ns + rhs.as_nanos() }
    }
}

impl AddSpecImpl<Duration> for Instant {
    open spec fn obeys_add_spec() -> bool {
        true
    }

    open spec fn add_req(self, rhs: Duration) -> bool {
        self@ + rhs@ <= u64::MAX
    }

    open spec fn add_spec(self, rhs: Duration) -> Instant {
        Instant::of((self@ + rhs@) as u64)
    }
}

impl Sub<Instant> for Instant {
    type Output = Duration;

    fn sub(self, rhs: Instant) -> (r: Duration) {
        let r = Duration::from_nanos(self.ns - rhs.ns);
        proof {
            Duration::lemma_of((self.ns - rhs.ns) as u64);
            Duration::lemma_eq(r, Duration::of((self.ns - rhs.ns) as u64));
        }
        r
    }
}

impl SubSpecImpl<Instant> for Instant {
    open spec fn obeys_sub_spec() -> bool {
        true
    }

    open spec fn sub_req(self, rhs: Instant) -> bool {
        self@ >= rhs@
    }

    open spec fn sub_spec(self, rhs: Instant) -> Duration {
        Duration::of((self@ - rhs@) as u64)
    }
}

impl Sub<Duration> for Instant {
    type Output = Instant;

    fn sub(self, rhs: Duration) -> (r: Instant) {
        Instant { ns: self.ns - rhs.as_nanos() }
    }
}

impl SubSpecImpl<Duration> for Instant {
    open spec fn obeys_sub_spec() -> bool {
        true
    }

    open spec fn sub_req(self, rhs: Duration) -> bool {
        self@ >= rhs@
    }

    open spec fn sub_spec(self, rhs: Duration) -> Instant {
        Instant::of((self@ - rhs@) as u64)
    }
}

impl From<crate::clocksource::coarse::Instant> for Instant {
    fn from(other: crate::clocksource::coarse::Instant) -> (r: Self) {
        Self { ns: other.secs as u64 * 1_000_000_000 }
    }
}

impl FromSpecImpl<crate::clocksource::coarse::Instant> for Instant {
    open spec fn obeys_from_spec() -> bool {
        true
    }

    open spec fn from_spec(v: crate::clocksource::coarse::Instant) -> Instant {
        Instant::of((v@ * 1_000_000_000) as u64)
    }
}

} // verus!
