use vstd::prelude::*;
use crate::clocksource::precise::{Duration, Instant};
use crate::histogram::config::{valid_params, params_fit};
use crate::histogram::errors::Error;
use crate::histogram::sliding_window::{
    Common,
    window_slot,
    slot_of,
    tick_after,
    add_result,
    lemma_tick_after,
};
use crate::histogram::standard::counts_wrapping_difference;

verus! {

broadcast use {
    crate::clocksource::group_time_views,
    crate::histogram::standard::group_histogram_view,
};

/// A type of histogram that reports on the distribution of values across a
/// moving window of time. For example, the distribution of values for the
/// past minute.
pub struct Histogram {
    common: Common,
    // when the next tick begins
    tick_at: Instant,
    // the historical histogram snapshots
    snapshots: Vec<crate::histogram::Histogram>,
    // the live histogram, this is free-running
    live: crate::histogram::Histogram,
}

impl Histogram {
    /// The common components of the sliding window.
    pub closed spec fn spec_common(&self) -> Common {
        self.common
    }

    /// When the window moves forward next.
    pub closed spec fn spec_tick_at(&self) -> Instant {
        self.tick_at
    }

    /// The counters of the live histogram.
    pub closed spec fn spec_live(&self) -> Seq<u64> {
        self.live.counts()
    }

    /// The counters of the snapshot in slice `i` of the ring buffer.
    pub closed spec fn spec_snapshot(&self, i: int) -> Seq<u64> {
        self.snapshots@[i].counts()
    }

    /// The window of `after` is that of `self` moved for an instant: the
    /// next tick is the first one past the instant when it was due and is
    /// representable, and when it moved, the live counters were copied into
    /// the snapshot of the slice of the last interval before it, the others
    /// staying as they were.
    pub open spec fn spec_slides_to(&self, after: Self, instant: nat) -> bool {
        let t = self.spec_tick_at()@ as nat;
        let iv = self.spec_common().spec_interval()@ as nat;
        let next = tick_after(t, iv, instant);
        &&& after.spec_common() == self.spec_common()
        &&& after.spec_tick_at()@ == next
        &&& if next == t {
            forall|i: int| #[trigger] after.spec_snapshot(i) == self.spec_snapshot(i)
        } else {
            let slot = slot_of(self.spec_common(), (next - iv) as nat) as int;
            &&& after.spec_snapshot(slot) == self.spec_live()
            &&& forall|i: int|
                0 <= i < self.spec_common().spec_num_slices() && i != slot
                    ==> #[trigger] after.spec_snapshot(i) == self.spec_snapshot(i)
        }
    }

    /// The histograms share the configuration of the common components,
    /// there is one snapshot per slice, and the next tick lies at or past
    /// the end of the first window.
    pub closed spec fn wf(&self) -> bool {
        &&& self.common.wf()
        &&& self.live.wf()
        &&& self.live.spec_config() == self.common.spec_config()
        &&& self.snapshots@.len() == self.common.spec_num_slices()
        &&& forall|i: int|
            0 <= i < self.snapshots@.len() ==> (#[trigger] self.snapshots@[i]).wf()
                && self.snapshots@[i].spec_config() == self.common.spec_config()
        &&& self.tick_at@ >= self.common.spec_tick_origin()@ + self.common.spec_span()@
        &&& self.tick_at@ <= u64::MAX
    }

    /// Create a new sliding window histogram whose first window ends at
    /// `now`, the current reading of the monotonic clock.
    /// * `a` sets bin width in the linear portion, the bin width is `2^a`
    /// * `b` sets the number of divisions in the logarithmic portion to `2^b`.
    /// * `n` sets the max value as `2^n - 1`.
    /// * `interval` is the duration of each discrete time slice
    /// * `slices` is the number of discrete time slices
    ///
    /// # Constraints
    /// * `n` must be less than or equal to 64
    /// * `n` must be greater than `a + b`
    /// * `interval` must be at least 1 microsecond
    pub fn new(a: u8, b: u8, n: u8, interval: Duration, slices: usize, now: Instant) -> (r: Result<
        Self,
        Error,
    >)
        requires
            interval@ >= 1000,
            slices < usize::MAX,
            interval@ * slices <= u64::MAX,
            now@ >= interval@ * slices,
            valid_params(a as nat, b as nat, n as nat) ==> params_fit(a as nat, b as nat, n as nat),
        ensures
            match r {
                Ok(h) => {
                    &&& valid_params(a as nat, b as nat, n as nat)
                    &&& h.wf()
                    &&& h.spec_common().spec_interval() == interval
                    &&& h.spec_common().spec_span()@ == interval@ * slices
                    &&& h.spec_common().spec_tick_origin()@ == now@ - interval@ * slices
                    &&& h.spec_common().spec_params() == (a, b, n)
                    &&& h.spec_tick_at() == now
                },
                Err(e) => {
                    ||| (n > 64 && e == Error::MaxPowerTooHigh)
                    ||| (n <= 64 && a + b >= n && e == Error::MaxPowerTooLow)
                },
            },
    {
        let common = match Common::new(a, b, n, interval, slices, now) {
            Ok(c) => c,
            Err(e) => return Err(e),
        };
        Self::from_common(common)
    }

    /// Construct a `Histogram` from the common struct for sliding window
    /// histograms, with every counter at zero and the next tick at the end
    /// of the first window.
    pub(crate) fn from_common(common: Common) -> (r: Result<Self, Error>)
        requires
            common.wf(),
        ensures
            r matches Ok(h) && h.wf() && h.spec_common() == common && h.spec_tick_at()@
                == common.spec_tick_origin()@ + common.spec_span()@,
    {
        let config = common.config();
        let live = crate::histogram::Histogram::with_config(&config);
        let slices = common.num_slices();
        let mut snapshots: Vec<crate::histogram::Histogram> = Vec::with_capacity(slices);
        while snapshots.len() < slices
            invariant
                snapshots@.len() <= slices,
                config.wf(),
                forall|i: int|
                    0 <= i < snapshots@.len() ==> (#[trigger] snapshots@[i]).wf()
                        && snapshots@[i].spec_config() == config,
            decreases slices - snapshots@.len(),
        {
            snapshots.push(crate::histogram::Histogram::with_config(&config));
        }
        let tick_at = Instant { ns: common.tick_origin().ns + common.span().ns };
        Ok(Self { common, tick_at, snapshots, live })
    }

    /// Get a reference to the common structure for sliding window
    /// histograms.
    pub fn common(&self) -> (r: &Common)
        ensures
            *r == self.spec_common(),
    {
        &self.common
    }

    /// Get the time when the window will move forward next.
    pub fn tick_at(&self) -> (r: Instant)
        ensures
            r == self.spec_tick_at(),
    {
        self.tick_at
    }

    /// Get the snapshot index for a given instant: its slice of the ring
    /// buffer, or `OutOfSlidingWindow` if it lies outside of the window that
    /// ends at the next tick.
    pub fn index(&self, instant: Instant) -> (r: Result<usize, Error>)
        requires
            self.wf(),
        ensures
            match window_slot(self.spec_common(), self.spec_tick_at()@ as nat, instant@ as nat) {
                Some(i) => r == Ok::<usize, Error>(i as usize) && i < self.spec_common().spec_num_slices(),
                None => r == Err::<usize, Error>(Error::OutOfSlidingWindow),
            },
    {
        self.common.index_at(self.tick_at, instant)
    }

    /// Get access to the raw buckets in the live histogram.
    pub fn as_slice(&self) -> (r: &[u64])
        ensures
            r@ == self.spec_live(),
    {
        self.live.as_slice()
    }

    /// Get access to the raw buckets in the live histogram.
    ///
    /// This is useful if you are planning to update from some external source
    /// that uses the same bucketing strategy. Be sure to use with
    /// `snapshot()`.
    pub fn as_mut_slice(&mut self) -> (r: &mut [u64])
        requires
            old(self).wf(),
        ensures
            r@ == old(self).spec_live(),
            final(r)@.len() == r@.len() ==> final(self).wf(),
            final(self).spec_live() == final(r)@,
            final(self).spec_common() == old(self).spec_common(),
            final(self).spec_tick_at() == old(self).spec_tick_at(),
            forall|i: int| #[trigger] final(self).spec_snapshot(i) == old(self).spec_snapshot(i),
    {
        self.live.as_mut_slice()
    }

    /// Increment a time-value pair by one. See `add_at`.
    pub fn increment_at(&mut self, instant: Instant, value: u64) -> (r: Result<(), Error>)
        requires
            old(self).wf(),
        ensures
            final(self).wf(),
            old(self).spec_slides_to(*final(self), instant@ as nat),
            r == add_result(old(self).spec_common(), final(self).spec_tick_at()@ as nat, instant@ as nat, value),
            match r {
                Ok(()) => {
                    let i = old(self).spec_common().spec_config().spec_index(value as nat) as int;
                    final(self).spec_live() == old(self).spec_live().update(
                        i,
                        old(self).spec_live()[i].wrapping_add(1),
                    )
                },
                Err(_) => final(self).spec_live() == old(self).spec_live(),
            },
    {
        self.add_at(instant, value, 1)
    }

    /// Increment a time-value pair by some count.
    ///
    /// If the instant is at or after the next tick, the window will slide
    /// forward so that the window includes the instant before the increment
    /// is recorded: the next tick moves to the first one past the instant,
    /// and the live histogram is copied into a single snapshot.
    ///
    /// If the instant is earlier than the start of the sliding window,
    /// `OutOfSlidingWindow` is returned and nothing is recorded.
    ///
    /// If the instant is within the window, the increment will be attributed
    /// to the most recent time slice regardless of the true position within
    /// the sliding window. Returns `OutOfRange` if the value cannot be
    /// stored.
    pub fn add_at(&mut self, instant: Instant, value: u64, count: u64) -> (r: Result<(), Error>)
        requires
            old(self).wf(),
        ensures
            final(self).wf(),
            old(self).spec_slides_to(*final(self), instant@ as nat),
            instant@ + old(self).spec_common().spec_interval()@ <= u64::MAX ==> instant@
                < final(self).spec_tick_at()@,
            r == add_result(old(self).spec_common(), final(self).spec_tick_at()@ as nat, instant@ as nat, value),
            match r {
                Ok(()) => {
                    let i = old(self).spec_common().spec_config().spec_index(value as nat) as int;
                    final(self).spec_live() == old(self).spec_live().update(
                        i,
                        old(self).spec_live()[i].wrapping_add(count),
                    )
                },
                Err(_) => final(self).spec_live() == old(self).spec_live(),
            },
    {
        self.tick_to(instant);
        proof {
            lemma_tick_after(
                old(self).spec_tick_at()@ as nat,
                old(self).spec_common().spec_interval()@ as nat,
                instant@ as nat,
            );
        }
        // the start of the window is at or after the origin of the ticks
        if instant.ns < self.tick_at.ns - self.common.span().ns {
            return Err(Error::OutOfSlidingWindow);
        }
        let ghost moved = *self;
        // and finally record into the live histogram
        let r = self.live.add(value, count);
        assert(forall|i: int| #[trigger] self.spec_snapshot(i) == moved.spec_snapshot(i));
        match r {
            Ok(()) => Ok(()),
            Err(e) => Err(e),
        }
    }

    /// Calculate and return the histogram from a previous instant to `now`,
    /// the current reading of the monotonic clock: the live counters minus
    /// those of the snapshot for the previous instant, wrapping on underflow.
    ///
    /// An error will be returned if the previous instant is outside of the
    /// sliding window.
    pub fn distribution_since(&mut self, previous: Instant, now: Instant) -> (r: Result<
        crate::histogram::Histogram,
        Error,
    >)
        requires
            old(self).wf(),
        ensures
            final(self).wf(),
            final(self).spec_live() == old(self).spec_live(),
            old(self).spec_slides_to(*final(self), now@ as nat),
            r is Err <==> (previous@ + final(self).spec_common().spec_span()@
                < final(self).spec_tick_at()@ || previous@ > final(self).spec_tick_at()@),
            match window_slot(
                final(self).spec_common(),
                final(self).spec_tick_at()@ as nat,
                previous@ as nat,
            ) {
                Some(i) => r matches Ok(h) && h.wf() && h.spec_config()
                    == final(self).spec_common().spec_config() && h.counts()
                    == counts_wrapping_difference(
                    final(self).spec_live(),
                    final(self).spec_snapshot(i as int),
                ),
                None => r == Err::<crate::histogram::Histogram, Error>(Error::OutOfSlidingWindow),
            },
    {
        self.tick_to(now);
        let index = match self.index(previous) {
            Ok(i) => i,
            Err(e) => return Err(e),
        };
        let previous = &self.snapshots[index];
        let mut histogram = crate::histogram::Histogram::with_config(&self.live.config);
        let n = self.live.buckets.len();
        let mut idx: usize = 0;
        while idx < n
            invariant
                n == self.live.buckets@.len(),
                n == previous.buckets@.len(),
                n == histogram.buckets@.len(),
                idx <= n,
                histogram.config == self.live.config,
                forall|j: int|
                    0 <= j < idx ==> #[trigger] histogram.buckets@[j]
                        == self.live.buckets@[j].wrapping_sub(previous.buckets@[j]),
            decreases n - idx,
        {
            let v = self.live.buckets[idx].wrapping_sub(previous.buckets[idx]);
            histogram.buckets.set(idx, v);
            idx = idx + 1;
        }
        proof {
            assert(histogram.counts() =~= counts_wrapping_difference(
                self.live.counts(),
                previous.counts(),
            ));
        }
        Ok(histogram)
    }

    /// Calculate and return the histogram that covers a fixed duration up to
    /// `now`, the current reading of the monotonic clock. This is a
    /// convenience wrapper around `distribution_since`.
    ///
    /// An error will be returned if the duration is longer than the sliding
    /// window.
    pub fn distribution_last(&mut self, duration: Duration, now: Instant) -> (r: Result<
        crate::histogram::Histogram,
        Error,
    >)
        requires
            old(self).wf(),
            duration@ <= now@,
        ensures
            final(self).wf(),
            final(self).spec_live() == old(self).spec_live(),
            old(self).spec_slides_to(*final(self), now@ as nat),
            match window_slot(
                final(self).spec_common(),
                final(self).spec_tick_at()@ as nat,
                (now@ - duration@) as nat,
            ) {
                Some(i) => r matches Ok(h) && h.wf() && h.counts() == counts_wrapping_difference(
                    final(self).spec_live(),
                    final(self).spec_snapshot(i as int),
                ),
                None => r == Err::<crate::histogram::Histogram, Error>(Error::OutOfSlidingWindow),
            },
    {
        let previous = Instant { ns: now.ns - duration.ns };
        self.distribution_since(previous, now)
    }

    /// Moves the window forward if the instant is at or past the next tick:
    /// the next tick moves to the first one past the instant, and the live
    /// histogram is copied into the snapshot of the slice of the last
    /// interval before it. Even if the instant is behind by multiple ticks,
    /// only one snapshot is taken, so that past readings do not change. The
    /// window does not move when the new tick would not be a representable
    /// instant.
    fn tick_to(&mut self, instant: Instant)
        requires
            old(self).wf(),
        ensures
            final(self).wf(),
            final(self).spec_live() == old(self).spec_live(),
            old(self).spec_slides_to(*final(self), instant@ as nat),
    {
        let tick_at = self.tick_at;
        // fast path, we just update the live histogram
        if instant.ns < tick_at.ns {
            return;
        }
        let interval = self.common.interval().ns;
        proof {
            vstd::arithmetic::div_mod::lemma_div_is_ordered_by_denominator(
                (instant.ns - tick_at.ns) as int,
                2,
                interval as int,
            );
        }
        let ticks = (instant.ns - tick_at.ns) / interval + 1;
        proof {
            lemma_tick_after(tick_at@ as nat, interval as nat, instant@ as nat);
        }
        let step = match ticks.checked_mul(interval) {
            Some(d) => d,
            None => return,
        };
        let tick_next = match tick_at.ns.checked_add(step) {
            Some(t) => t,
            None => return,
        };
        proof {
            vstd::arithmetic::mul::lemma_mul_increases(ticks as int, interval as int);
            vstd::arithmetic::mul::lemma_mul_is_commutative(interval as int, ticks as int);
        }
        self.tick_at = Instant { ns: tick_next };
        // rarer path where we need to snapshot
        //
        // Even if we are behind by multiple ticks, we will only snapshot into
        // the most recent snapshot position. This ensures that we will not
        // change past readings.
        let index = self.common.slot(Instant { ns: tick_next - interval });
        // we copy from the live histogram into that snapshot (the oldest)
        let copy = copy_of_counts(self.live.as_slice());
        let mut snapshot = crate::histogram::Histogram::with_config(&self.live.config);
        snapshot.buckets = copy;
        self.snapshots.set(index, snapshot);
    }

    /// Causes the histogram window to slide forward to `now`, the current
    /// reading of the monotonic clock, if necessary.
    ///
    /// This is useful if you are updating the live buckets directly.
    pub fn snapshot(&mut self, now: Instant)
        requires
            old(self).wf(),
        ensures
            final(self).wf(),
            final(self).spec_live() == old(self).spec_live(),
            old(self).spec_slides_to(*final(self), now@ as nat),
    {
        self.tick_to(now);
    }
}

/// A copy of a slice of counters.
fn copy_of_counts(v: &[u64]) -> (r: Vec<u64>)
    ensures
        r@ == v@,
{
    let mut r: Vec<u64> = Vec::with_capacity(v.len());
    let mut i: usize = 0;
    while i < v.len()
        invariant
            i <= v@.len(),
            r@ == v@.take(i as int),
        decreases v@.len() - i,
    {
        r.push(v[i]);
        i = i + 1;
        assert(r@ =~= v@.take(i as int));
    }
    assert(v@.take(i as int) =~= v@);
    r
}

} // verus!
