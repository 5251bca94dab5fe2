use vstd::prelude::*;
use core::ops::{Add, Sub};
use vstd::std_specs::ops::{AddSpecImpl, SubSpecImpl};
use crate::clocksource::coarse::Duration;

verus! {

broadcast use crate::clocksource::coarse::duration::lemma_view_duration;

/// A measurement of a monotonically nondecreasing clock in whole seconds.
///
/// It is opaque and useful only with the duration types.
#[derive(Copy, Clone, Default, Debug, Hash, PartialEq, Eq, Structural, PartialOrd, Ord)]
pub struct Instant {
    pub(crate) secs: u32,
}

impl View for Instant {
    type V = u32;

    /// The clock reading in whole seconds.
    closed spec fn view(&self) -> u32 {
        self.secs
    }
}

/// The view of a value is its stored reading.
pub(crate) broadcast proof fn lemma_view_instant(x: Instant)
    ensures
        #[trigger] x@ == x.secs,
{
}

impl Instant {
    /// The value with the given reading.
    pub closed spec fn of(v: u32) -> Instant {
        Instant { secs: v }
    }

    /// The reading of `of(v)` is `v`.
    pub broadcast proof fn lemma_of(v: u32)
        ensures
            (#[trigger] Instant::of(v))@ == v,
    {
    }

    /// Two values are equal exactly when their readings are.
    pub proof fn lemma_eq(x: Instant, y: Instant)
        ensures
            (x@ == y@) <==> x == y,
    {
    }
}

impl Instant {
    /// Return the elapsed duration from some earlier instant until this
    /// instant.
    pub fn duration_since(&self, earlier: Self) -> (r: Duration)
        requires
            self@ >= earlier@,
        ensures
            r@ == self@ - earlier@,
    {
        Duration::from_secs(self.secs - earlier.secs)
    }

    /// Return the elapsed duration from some earlier instant until this
    /// instant, or `None` if `earlier` is later than this instant.
    pub fn checked_duration_since(&self, earlier: Self) -> (r: Option<Duration>)
        ensures
            match r {
                Some(d) => self@ >= earlier@ && d@ == self@ - earlier@,
                None => self@ < earlier@,
            },
    {
        match self.secs.checked_sub(earlier.secs) {
            Some(v) => Some(Duration::from_secs(v)),
            None => None,
        }
    }

    /// Return the instant that is `duration` before this one, or `None` if
    /// that would be before the start of the clock.
    pub fn checked_sub(&self, duration: Duration) -> (r: Option<Self>)
        ensures
            match r {
                Some(t) => self@ >= duration@ && t@ == self@ - duration@,
                None => self@ < duration@,
            },
    {
        match self.secs.checked_sub(duration.as_secs()) {
            Some(v) => Some(Self { secs: v }),
            None => None,
        }
    }
}

impl Add<Duration> for Instant {
    type Output = Instant;

    fn add(self, rhs: Duration) -> (r: Instant) {
        Instant { secs: self.secs + rhs.as_secs() }
    }
}

impl AddSpecImpl<Duration> for Instant {
    open spec fn obeys_add_spec() -> bool {
        true
    }

    open spec fn add_req(self, rhs: Duration) -> bool {
        self@ + rhs@ <= u32::MAX
    }

    open spec fn add_spec(self, rhs: Duration) -> Instant {
        Instant::of((self@ + rhs@) as u32)
    }
}

impl Sub<Instant> for Instant {
    type Output = Duration;

    fn sub(self, rhs: Instant) -> (r: Duration) {
        let r = Duration::from_secs(self.secs - rhs.secs);
        proof {
            Duration::lemma_of((self.secs - rhs.secs) as u32);
            Duration::lemma_eq(r, Duration::of((self.secs - rhs.secs) as u32));
        }
        r
    }
}

impl SubSpecImpl<Instant> for Instant {
    open spec fn obeys_sub_spec() -> bool {
        true
    }

    open spec fn sub_req(self, rhs: Instant) -> bool {
        self@ >= rhs@
    }

    open spec fn sub_spec(self, rhs: Instant) -> Duration {
        Duration::of((self@ - rhs@) as u32)
    }
}

impl Sub<Duration> for Instant {
    type Output = Instant;

    fn sub(self, rhs: Duration) -> (r: Instant) {
        Instant { secs: self.secs - rhs.as_secs() }
    }
}

impl SubSpecImpl<Duration> for Instant {
    open spec fn obeys_sub_spec() -> bool {
        true
    }

    open spec fn sub_req(self, rhs: Duration) -> bool {
        self@ >= rhs@
    }

    open spec fn sub_spec(self, rhs: Duration) -> Instant {
        Instant::of((self@ - rhs@) as u32)
    }
}

} // verus!
