use vstd::prelude::*;
use core::sync::atomic::{AtomicU64, Ordering};
use crate::clocksource::precise::{AtomicInstant, Duration, Instant};
use crate::histogram::atomic::AtomicHistogram;
use crate::histogram::config::{valid_params, params_fit};
use crate::histogram::errors::Error;
use crate::histogram::sliding_window::{Common, window_index, add_result};

verus! {

broadcast use crate::clocksource::group_time_views;

/// A type of histogram that reports on the distribution of values across a
/// moving window of time. For example, the distribution of values for the
/// past minute. Internally, this uses atomic histogram implementations. This
/// allows concurrent modification using atomic operations, so nothing is
/// known of the counters or of the next tick as they are read.
pub struct Histogram {
    common: Common,
    // when the next tick begins
    tick_at: AtomicInstant,
    // the historical histogram snapshots
    snapshots: Vec<AtomicHistogram>,
    // the live histogram, this is free-running
    live: AtomicHistogram,
}

impl Histogram {
    /// The common components of the sliding window.
    pub closed spec fn spec_common(&self) -> Common {
        self.common
    }

    /// The histograms share the configuration of the common components and
    /// there is one snapshot per slice.
    pub closed spec fn wf(&self) -> bool {
        &&& self.common.wf()
        &&& self.live.wf()
        &&& self.live.spec_config() == self.common.spec_config()
        &&& self.snapshots@.len() == self.common.spec_num_slices()
        &&& forall|i: int|
            0 <= i < self.snapshots@.len() ==> (#[trigger] self.snapshots@[i]).wf()
                && self.snapshots@[i].spec_config() == self.common.spec_config()
    }

    /// Create a new histogram that stores values across a sliding window and
    /// allows concurrent modification, whose first window ends at `now`, the
    /// current reading of the monotonic clock.
    ///
    /// # Parameters:
    /// * `a` sets bin width in the linear portion, the bin width is `2^a`
    /// * `b` sets the number of divisions in the logarithmic portion to `2^b`.
    /// * `n` sets the max value as `2^n - 1`.
    /// * `interval` is the duration of each discrete time slice
    /// * `slices` is the number of discrete time slices
    ///
    /// # Constraints:
    /// * `n` must be less than or equal to 64
    /// * `n` must be greater than `a + b`
    /// * `interval` must be at least 1 microsecond
    pub fn new(a: u8, b: u8, n: u8, interval: Duration, slices: usize, now: Instant) -> (r: Result<
        Self,
        Error,
    >)
        requires
            interval@ >= 1000,
            slices < usize::MAX,
            interval@ * slices <= u64::MAX,
            now@ >= interval@ * slices,
            valid_params(a as nat, b as nat, n as nat) ==> params_fit(a as nat, b as nat, n as nat),
        ensures
            match r {
                Ok(h) => {
                    &&& valid_params(a as nat, b as nat, n as nat)
                    &&& h.wf()
                    &&& h.spec_common().spec_interval() == interval
                    &&& h.spec_common().spec_span()@ == interval@ * slices
                    &&& h.spec_common().spec_tick_origin()@ == now@ - interval@ * slices
                    &&& h.spec_common().spec_params() == (a, b, n)
                },
                Err(e) => {
                    ||| (n > 64 && e == Error::MaxPowerTooHigh)
                    ||| (n <= 64 && a + b >= n && e == Error::MaxPowerTooLow)
                },
            },
    {
        let common = match Common::new(a, b, n, interval, slices, now) {
            Ok(c) => c,
            Err(e) => return Err(e),
        };
        Self::from_common(common)
    }

    /// Construct a `Histogram` from the common struct for sliding window
    /// histograms, with every counter at zero and the next tick at the end of
    /// the first window.
    pub(crate) fn from_common(common: Common) -> (r: Result<Self, Error>)
        requires
            common.wf(),
        ensures
            r matches Ok(h) && h.wf() && h.spec_common() == common,
    {
        let config = common.config();
        let live = AtomicHistogram::with_config(&config);
        let slices = common.num_slices();
        let mut snapshots: Vec<AtomicHistogram> = Vec::with_capacity(slices);
        while snapshots.len() < slices
            invariant
                snapshots@.len() <= slices,
                config.wf(),
                forall|i: int|
                    0 <= i < snapshots@.len() ==> (#[trigger] snapshots@[i]).wf()
                        && snapshots@[i].spec_config() == config,
            decreases slices - snapshots@.len(),
        {
            snapshots.push(AtomicHistogram::with_config(&config));
        }
        let tick_at = AtomicInstant::new(
            Instant { ns: common.tick_origin().ns + common.span().ns },
        );
        Ok(Self { common, tick_at, snapshots, live })
    }

    /// Get a reference to the common structure for sliding window
    /// histograms.
    pub fn common(&self) -> (r: &Common)
        ensures
            *r == self.spec_common(),
    {
        &self.common
    }

    /// Get the time when the window will move forward next.
    pub fn tick_at(&self) -> (r: Instant) {
        self.tick_at.load(Ordering::Relaxed)
    }

    /// Get the snapshot index for a given instant: its slice of the ring
    /// buffer for the window that ends at the next tick as it is read, or
    /// `OutOfSlidingWindow` if it lies outside of that window.
    pub fn index(&self, instant: Instant) -> (r: Result<usize, Error>)
        requires
            self.wf(),
        ensures
            exists|t: Instant|
                r == #[trigger] window_index(self.spec_common(), t@ as nat, instant@ as nat),
            r matches Ok(i) ==> i < self.spec_common().spec_num_slices(),
    {
        let tick_at = self.tick_at();
        let r = self.common.index_at(tick_at, instant);
        assert(r == window_index(self.spec_common(), tick_at@ as nat, instant@ as nat));
        r
    }

    /// Get access to the raw buckets in the live histogram.
    pub fn as_slice(&self) -> (r: &[AtomicU64])
        requires
            self.wf(),
        ensures
            r@.len() == self.spec_common().spec_config().spec_total_bins(),
    {
        self.live.as_slice()
    }

    /// Increment a time-value pair by one. See `add_at`.
    pub fn increment_at(&self, instant: Instant, value: u64) -> (r: Result<(), Error>)
        requires
            self.wf(),
        ensures
            exists|t: Instant|
                r == #[trigger] add_result(self.spec_common(), t@ as nat, instant@ as nat, value),
            r is Ok ==> value <= self.spec_common().spec_config().spec_max(),
            value > self.spec_common().spec_config().spec_max() ==> r is Err,
    {
        self.add_at(instant, value, 1)
    }

    /// Increment a time-value pair by some count.
    ///
    /// If the instant is at or after the next tick, the window will slide
    /// forward so that the window includes the instant before the increment
    /// is recorded.
    ///
    /// If the instant is earlier than the start of the sliding window, as
    /// the next tick is read after the slide, `OutOfSlidingWindow` is
    /// returned and nothing is recorded.
    ///
    /// Otherwise the increment is recorded into the live histogram,
    /// regardless of the true position of the instant within the sliding
    /// window. Returns `OutOfRange` if the value cannot be stored.
    pub fn add_at(&self, instant: Instant, value: u64, count: u64) -> (r: Result<(), Error>)
        requires
            self.wf(),
        ensures
            exists|t: Instant|
                r == #[trigger] add_result(self.spec_common(), t@ as nat, instant@ as nat, value),
            r is Ok ==> value <= self.spec_common().spec_config().spec_max(),
            value > self.spec_common().spec_config().spec_max() ==> r is Err,
    {
        self.tick_to(instant);
        let tick_at = self.tick_at();
        let span = self.common.span().ns;
        if tick_at.ns >= span && instant.ns < tick_at.ns - span {
            return Err(Error::OutOfSlidingWindow);
        }
        let r = match self.live.add(value, count) {
            Ok(()) => Ok(()),
            Err(e) => Err(e),
        };
        assert(r == add_result(self.spec_common(), tick_at@ as nat, instant@ as nat, value));
        r
    }

    /// Calculate and return the histogram from a previous instant to `now`,
    /// the current reading of the monotonic clock: the live counters minus
    /// those of the snapshot for the previous instant, wrapping on underflow.
    ///
    /// An error will be returned if the previous instant is outside of the
    /// sliding window.
    pub fn distribution_since(&self, previous: Instant, now: Instant) -> (r: Result<
        crate::histogram::Histogram,
        Error,
    >)
        requires
            self.wf(),
        ensures
            match r {
                Ok(h) => h.wf() && h.spec_config() == self.spec_common().spec_config(),
                Err(e) => e == Error::OutOfSlidingWindow,
            },
    {
        self.tick_to(now);
        let index = match self.index(previous) {
            Ok(i) => i,
            Err(e) => return Err(e),
        };
        let previous = self.snapshots[index].load();
        let live = self.live.load();
        match live.wrapping_sub(&previous) {
            Ok(h) => Ok(h),
            Err(_) => unreached(),
        }
    }

    /// Calculate and return the histogram that covers a fixed duration up to
    /// `now`, the current reading of the monotonic clock. This is a
    /// convenience wrapper around `distribution_since`.
    ///
    /// An error will be returned if the duration is longer than the sliding
    /// window.
    pub fn distribution_last(&self, duration: Duration, now: Instant) -> (r: Result<
        crate::histogram::Histogram,
        Error,
    >)
        requires
            self.wf(),
            duration@ <= now@,
        ensures
            match r {
                Ok(h) => h.wf() && h.spec_config() == self.spec_common().spec_config(),
                Err(e) => e == Error::OutOfSlidingWindow,
            },
    {
        let previous = Instant { ns: now.ns - duration.ns };
        self.distribution_since(previous, now)
    }

    /// Moves the window forward, if necessary: while the instant is at or
    /// past the next tick as it is read, the thread that moves the next tick
    /// forward by one interval copies the live counters into the snapshot of
    /// the slice of the tick it replaced. The retries end after `u64::MAX`
    /// rounds, which no run reaches.
    fn tick_to(&self, instant: Instant)
        requires
            self.wf(),
    {
        let mut rounds: u64 = 0;
        while rounds < u64::MAX
            invariant
                self.wf(),
            decreases u64::MAX - rounds,
        {
            rounds = rounds + 1;
            let tick_at = self.tick_at.load(Ordering::Relaxed);
            // fast path when the window does not need to be advanced
            if instant.ns < tick_at.ns {
                return;
            }
            let interval = self.common.interval();
            if tick_at.ns > u64::MAX - interval.ns {
                return;
            }
            // To actually snapshot, move the next tick forward to unblock
            // other increments. This will slightly smear things into the
            // snapshot that occur after the end boundary, but this trade-off
            // reduces the pause duration.
            let tick_next = Instant { ns: tick_at.ns + interval.ns };
            // cas and if we lose, loop back, another thread may have won
            if self.tick_at.compare_exchange(
                tick_at,
                tick_next,
                Ordering::AcqRel,
                Ordering::Relaxed,
            ).is_ok() {
                // we won the race, copy from the live histogram into the
                // snapshot of the slice of the replaced tick
                if let Ok(index) = self.index(tick_at) {
                    copy_counters(self.live.as_slice(), self.snapshots[index].as_slice());
                }
            }
        }
    }
}

/// Stores the value of each source counter into the destination counter at
/// the same position.
fn copy_counters(src: &[AtomicU64], dst: &[AtomicU64])
    requires
        src@.len() == dst@.len(),
{
    let mut i: usize = 0;
    while i < src.len()
        invariant
            i <= src@.len(),
            src@.len() == dst@.len(),
        decreases src@.len() - i,
    {
        dst[i].store(src[i].load(Ordering::Relaxed), Ordering::Relaxed);
        i = i + 1;
    }
}

} // verus!
