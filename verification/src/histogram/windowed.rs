//! A histogram that stores a distribution for a fixed window of time, and
//! reports on any range of whole slices within it.
//!
//! The monotonic clock is read by the caller: the operations that move the
//! window forward take the current `Instant` as an argument.

use vstd::prelude::*;
use core::sync::atomic::{AtomicU64, Ordering};
use crate::clocksource::precise::{AtomicInstant, Duration, Instant, UnixInstant};
use crate::histogram::config::{Config, valid_params, params_fit};
use crate::histogram::errors::Error;
use crate::histogram::snapshot::Snapshot;
use crate::histogram::standard::Histogram as PlainHistogram;

verus! {

broadcast use {
    crate::clocksource::group_time_views,
    crate::histogram::standard::group_histogram_view,
};

/// One hour in nanoseconds: intervals must be shorter.
pub const MAX_INTERVAL_NS: u64 = 3_600_000_000_000;

/// One millisecond in nanoseconds: intervals must be at least this long.
pub const MIN_INTERVAL_NS: u64 = 1_000_000;

/// A type of histogram that reports on the distribution of values across a
/// moving window of time. For example, the distribution of values for the
/// past minute. Internally, this uses atomic counters to allow concurrent
/// modification, so nothing is known of the counters or of the next tick as
/// they are read.
pub struct Histogram {
    config: Config,
    interval: Duration,
    span: Duration,
    started: UnixInstant,
    tick_origin: Instant,
    tick_at: AtomicInstant,
    num_slices: usize,
    snapshots: Vec<Vec<AtomicU64>>,
    live: Vec<AtomicU64>,
}

/// The slice of the ring buffer that holds an instant and the wall clock
/// time range that the slice covers.
#[derive(Debug, PartialEq)]
pub struct SnapshotInfo {
    pub index: usize,
    pub range: core::ops::Range<UnixInstant>,
}

/// The slice for an instant and the start of its time range in nanoseconds,
/// for a window whose next tick is `tick_at`: the window ends one interval
/// before the next tick and starts `span` before its end. `None` if the
/// instant lies before the origin of the ticks or outside of the window.
pub open spec fn slot_of(
    tick_origin: nat,
    interval: nat,
    span: nat,
    num_slices: nat,
    started: nat,
    tick_at: nat,
    instant: nat,
) -> Option<(nat, nat)> {
    if instant < tick_origin || instant + interval > tick_at || instant + interval + span
        < tick_at {
        None
    } else {
        let ticks = ((instant - tick_origin) as nat) / interval;
        Some((ticks % num_slices, started + ticks * interval))
    }
}

impl Histogram {
    /// The bucket configuration.
    pub closed spec fn spec_config(&self) -> Config {
        self.config
    }

    /// The duration of each slice.
    pub closed spec fn spec_interval(&self) -> Duration {
        self.interval
    }

    /// The duration of the whole window.
    pub closed spec fn spec_span(&self) -> Duration {
        self.span
    }

    /// The wall clock time at which the histogram started.
    pub closed spec fn spec_started(&self) -> UnixInstant {
        self.started
    }

    /// The monotonic clock reading at which the histogram started.
    pub closed spec fn spec_tick_origin(&self) -> Instant {
        self.tick_origin
    }

    /// The number of snapshots in the ring buffer.
    pub closed spec fn spec_num_slices(&self) -> nat {
        self.num_slices as nat
    }

    /// The slice and the start of its time range for an instant, for a
    /// window whose next tick is `tick_at`.
    pub open spec fn spec_slot(&self, tick_at: nat, instant: nat) -> Option<(nat, nat)> {
        slot_of(
            self.spec_tick_origin()@ as nat,
            self.spec_interval()@ as nat,
            self.spec_span()@ as nat,
            self.spec_num_slices(),
            self.spec_started()@ as nat,
            tick_at,
            instant,
        )
    }

    /// The configuration is well formed, the live histogram and every
    /// snapshot have one counter per bucket, the interval is at least a
    /// millisecond, and there is one snapshot per slice of the window plus
    /// one.
    pub closed spec fn wf(&self) -> bool {
        &&& self.config.wf()
        &&& self.live@.len() == self.config.spec_total_bins()
        &&& self.interval@ >= MIN_INTERVAL_NS
        &&& self.num_slices == 1 + self.span@ / self.interval@
        &&& self.snapshots@.len() == self.num_slices
        &&& forall|i: int|
            0 <= i < self.snapshots@.len() ==> (#[trigger] self.snapshots@[i])@.len()
                == self.config.spec_total_bins()
    }

    /// Create a new histogram that stores values across a sliding window and
    /// allows concurrent modification, whose first window ends at `now`, the
    /// current reading of the monotonic clock. The start is read from the
    /// system clock; see `with_clocks`.
    ///
    /// # Parameters:
    /// * `a` sets bin width in the linear portion, the bin width is `2^a`
    /// * `b` sets the number of divisions in the logarithmic portion to `2^b`.
    /// * `n` sets the max value as `2^n - 1`.
    /// * `interval` is the duration of each discrete time slice
    /// * `slices` is the number of discrete time slices
    pub fn new(a: u8, b: u8, n: u8, interval: Duration, slices: usize, now: Instant) -> (r: Result<
        Self,
        Error,
    >)
        requires
            interval@ * slices <= u64::MAX,
            slices < usize::MAX,
            now@ >= interval@ * slices,
            valid_params(a as nat, b as nat, n as nat) ==> params_fit(a as nat, b as nat, n as nat),
        ensures
            exists|wall_now: UnixInstant|
                #[trigger] Self::spec_new_result(a, b, n, interval, slices, now, wall_now, r),
    {
        let wall_now = UnixInstant::now();
        Self::with_clocks(a, b, n, interval, slices, now, wall_now)
    }

    /// `r` is what `with_clocks` returns for its arguments: the histogram
    /// with its parameters and the start `wall_now` less the span, or the
    /// first error that applies.
    pub open spec fn spec_new_result(
        a: u8,
        b: u8,
        n: u8,
        interval: Duration,
        slices: usize,
        now: Instant,
        wall_now: UnixInstant,
        r: Result<Self, Error>,
    ) -> bool {
        match r {
            Ok(h) => {
                &&& valid_params(a as nat, b as nat, n as nat)
                &&& MIN_INTERVAL_NS <= interval@ < MAX_INTERVAL_NS
                &&& wall_now@ >= interval@ * slices
                &&& h.wf()
                &&& h.spec_config().linear_power() == a
                &&& h.spec_config().spec_grouping_power() == b
                &&& h.spec_config().spec_max_value_power() == n
                &&& h.spec_interval() == interval
                &&& h.spec_span()@ == interval@ * slices
                &&& h.spec_num_slices() == slices + 1
                &&& h.spec_tick_origin()@ == now@ - interval@ * slices
                &&& h.spec_started()@ == wall_now@ - interval@ * slices
            },
            Err(e) => {
                ||| (n > 64 && e == Error::MaxPowerTooHigh)
                ||| (n <= 64 && a + b >= n && e == Error::MaxPowerTooLow)
                ||| (valid_params(a as nat, b as nat, n as nat) && interval@ >= MAX_INTERVAL_NS
                    && e == Error::IntervalTooLong)
                ||| (valid_params(a as nat, b as nat, n as nat) && interval@ < MIN_INTERVAL_NS
                    && e == Error::IntervalTooShort)
                ||| (valid_params(a as nat, b as nat, n as nat) && MIN_INTERVAL_NS <= interval@
                    < MAX_INTERVAL_NS && wall_now@ < interval@ * slices && e == Error::Underflow)
            },
        }
    }

    /// Create a new histogram that stores values across a sliding window,
    /// whose first window ends at `now`, the current reading of the monotonic
    /// clock, and whose start is one span before `wall_now`, the current
    /// reading of the system clock.
    ///
    /// # Errors:
    /// * `MaxPowerTooHigh` or `MaxPowerTooLow` for parameters that do not
    ///   describe a histogram
    /// * `IntervalTooLong` for an interval of an hour or more
    /// * `IntervalTooShort` for an interval shorter than a millisecond
    /// * `Underflow` if the system clock reads less than the span
    pub fn with_clocks(
        a: u8,
        b: u8,
        n: u8,
        interval: Duration,
        slices: usize,
        now: Instant,
        wall_now: UnixInstant,
    ) -> (r: Result<Self, Error>)
        requires
            interval@ * slices <= u64::MAX,
            slices < usize::MAX,
            now@ >= interval@ * slices,
            valid_params(a as nat, b as nat, n as nat) ==> params_fit(a as nat, b as nat, n as nat),
        ensures
            Self::spec_new_result(a, b, n, interval, slices, now, wall_now, r),
    {
        let started = wall_now;
        let config = match Config::with_linear_power(a, b, n) {
            Ok(c) => c,
            Err(e) => return Err(e),
        };
        let live = zeroed_counters(config.total_bins());
        if interval.as_nanos() >= MAX_INTERVAL_NS {
            return Err(Error::IntervalTooLong);
        }
        if interval.as_nanos() < MIN_INTERVAL_NS {
            return Err(Error::IntervalTooShort);
        }
        let span = Duration::from_nanos(interval.as_nanos() * (slices as u64));
        let started = match started.checked_sub(span) {
            Some(s) => s,
            None => return Err(Error::Underflow),
        };
        let tick_origin = Instant { ns: now.ns - span.ns };
        let tick_at = AtomicInstant::new(now);
        proof {
            vstd::arithmetic::div_mod::lemma_div_multiples_vanish(slices as int, interval@ as int);
            vstd::arithmetic::mul::lemma_mul_is_commutative(slices as int, interval@ as int);
        }
        let num_slices = 1 + (span.as_nanos() / interval.as_nanos()) as usize;
        let total = config.total_bins();
        let mut snapshots: Vec<Vec<AtomicU64>> = Vec::with_capacity(num_slices);
        while snapshots.len() < num_slices
            invariant
                snapshots@.len() <= num_slices,
                total == config.spec_total_bins(),
                forall|i: int|
                    0 <= i < snapshots@.len() ==> (#[trigger] snapshots@[i])@.len()
                        == config.spec_total_bins(),
            decreases num_slices - snapshots@.len(),
        {
            snapshots.push(zeroed_counters(total));
        }
        Ok(Self { config, interval, span, started, tick_origin, tick_at, num_slices, snapshots, live })
    }

    /// Get access to the raw buckets in the live histogram, after moving the
    /// window forward to `now`, the current reading of the monotonic clock.
    pub fn as_slice(&self, now: Instant) -> (r: &[AtomicU64])
        requires
            self.wf(),
        ensures
            r@.len() == self.spec_config().spec_total_bins(),
    {
        self.snapshot(now);
        self.live.as_slice()
    }

    /// Increment a time-value pair by one. See `add_at`.
    pub fn increment_at(&self, instant: Instant, value: u64) -> (r: Result<(), Error>)
        requires
            self.wf(),
        ensures
            r is Ok <==> value <= self.spec_config().spec_max(),
            r matches Err(e) ==> e == Error::OutOfRange,
    {
        self.add_at(instant, value, 1)
    }

    /// Increment a time-value pair by some count.
    ///
    /// If the instant is after the current sliding window, the window will
    /// slide forward so that the window includes the instant before the
    /// increment is recorded.
    ///
    /// The increment is attributed to the most recent time slice regardless
    /// of the true position of the instant within the sliding window.
    /// Returns `OutOfRange` if the value cannot be stored.
    pub fn add_at(&self, instant: Instant, value: u64, count: u64) -> (r: Result<(), Error>)
        requires
            self.wf(),
        ensures
            r is Ok <==> value <= self.spec_config().spec_max(),
            r matches Err(e) ==> e == Error::OutOfRange,
    {
        self.tick_to(instant);
        let index = match self.config.value_to_index(value) {
            Ok(i) => i,
            Err(e) => return Err(e),
        };
        self.live[index].fetch_add(count, Ordering::Relaxed);
        Ok(())
    }

    /// The monotonic clock reading for a wall clock time: the same distance
    /// from the origin of the ticks as the time is from the start, or `None`
    /// if the time is earlier than the start or the reading is not
    /// representable.
    pub open spec fn spec_range_instant(&self, time: nat) -> Option<nat> {
        let started = self.spec_started()@ as nat;
        if time < started || self.spec_tick_origin()@ + time - started > u64::MAX {
            None
        } else {
            Some((self.spec_tick_origin()@ + time - started) as nat)
        }
    }

    /// The start and end of the time range of the snapshot for a wall clock
    /// range, for a window whose next tick is `tick_at`: each end is mapped
    /// to the slice boundary at or before it. `OutOfSlidingWindow` if either end maps
    /// to no instant or to one outside of the window, `Overflow` if the time
    /// range of a slice is not representable.
    pub open spec fn spec_between_at(&self, range_start: nat, range_end: nat, tick_at: nat) -> Result<
        (nat, nat),
        Error,
    > {
        let interval = self.spec_interval()@ as nat;
        match self.spec_range_instant(range_start) {
            None => Err(Error::OutOfSlidingWindow),
            Some(si) => match self.spec_range_instant(range_end) {
                None => Err(Error::OutOfSlidingWindow),
                Some(ei) => match self.spec_slot(tick_at, si) {
                    None => Err(Error::OutOfSlidingWindow),
                    Some((_, s0)) => if s0 + interval > u64::MAX {
                        Err(Error::Overflow)
                    } else {
                        match self.spec_slot(tick_at, ei) {
                            None => Err(Error::OutOfSlidingWindow),
                            Some((_, e0)) => if e0 + interval > u64::MAX {
                                Err(Error::Overflow)
                            } else {
                                Ok((s0, e0))
                            },
                        }
                    },
                },
            },
        }
    }

    /// `r` is the snapshot for a wall clock range and a window whose next
    /// tick is `tick_at`: the time range of `spec_between_at`, the
    /// configuration of the histogram, or the error.
    pub open spec fn spec_between_result(
        &self,
        range: core::ops::Range<UnixInstant>,
        tick_at: Instant,
        r: Result<Snapshot, Error>,
    ) -> bool {
        match self.spec_between_at(range.start@ as nat, range.end@ as nat, tick_at@ as nat) {
            Ok((start, end)) => r matches Ok(s) && {
                &&& s.wf()
                &&& s.histogram().spec_config() == self.spec_config()
                &&& s.histogram().spec_start()@ == start
                &&& s.spec_end()@ == end
            },
            Err(e) => r == Err::<Snapshot, Error>(e),
        }
    }

    /// The snapshot `r` starts at the slice boundary at or before the start
    /// of the range, and ends at the slice boundary at or before its end.
    pub open spec fn spec_between_bounds(
        &self,
        range: core::ops::Range<UnixInstant>,
        r: Result<Snapshot, Error>,
    ) -> bool {
        let interval = self.spec_interval()@;
        r matches Ok(s) ==> {
            &&& s.histogram().spec_start()@ <= range.start@
            &&& range.start@ < s.histogram().spec_start()@ + interval
            &&& s.spec_end()@ <= range.end@
            &&& range.end@ < s.spec_end()@ + interval
        }
    }

    /// Returns a snapshot that covers the provided wall clock range, after
    /// moving the window forward to `now`, the current reading of the
    /// monotonic clock. Both the start and end of the range are adjusted to
    /// the slice boundary at or before them, which results in the
    /// distribution between the start and end times, including the provided
    /// start but excluding the provided end. This is `snapshot_between_at`
    /// for the next tick as it is read once the window has moved.
    ///
    /// Returns `OutOfSlidingWindow` if the start is earlier than the start
    /// of the histogram or either end maps to an instant outside of the
    /// window, and `Overflow` if the time range of a slice is not
    /// representable.
    pub fn snapshot_between(&self, range: core::ops::Range<UnixInstant>, now: Instant) -> (r: Result<
        Snapshot,
        Error,
    >)
        requires
            self.wf(),
        ensures
            exists|t: Instant| #[trigger] self.spec_between_result(range, t, r),
            self.spec_between_bounds(range, r),
            range.start@ < self.spec_started()@ ==> r == Err::<Snapshot, Error>(
                Error::OutOfSlidingWindow,
            ),
    {
        self.snapshot(now);
        let tick_at = self.tick_at();
        self.snapshot_between_at(range, tick_at)
    }

    /// Returns the snapshot that covers the provided wall clock range for a
    /// window whose next tick is `tick_at`: the counters as they were at the
    /// slice boundary at or before the end of the range minus those at the
    /// boundary at or before its start, read one pair at a time and wrapping
    /// on underflow.
    pub fn snapshot_between_at(&self, range: core::ops::Range<UnixInstant>, tick_at: Instant) -> (r: Result<
        Snapshot,
        Error,
    >)
        requires
            self.wf(),
        ensures
            self.spec_between_result(range, tick_at, r),
            self.spec_between_bounds(range, r),
    {
        let start = match self.range_instant(range.start) {
            Some(i) => i,
            None => return Err(Error::OutOfSlidingWindow),
        };
        let end = match self.range_instant(range.end) {
            Some(i) => i,
            None => return Err(Error::OutOfSlidingWindow),
        };
        // lookup snapshot information
        let start_info = match self.snapshot_info(start, tick_at) {
            Ok(s) => s,
            Err(e) => return Err(e),
        };
        let end_info = match self.snapshot_info(end, tick_at) {
            Ok(s) => s,
            Err(e) => return Err(e),
        };
        proof {
            lemma_slot_start(
                self.spec_started()@ as nat,
                self.spec_interval()@ as nat,
                (range.start@ - self.spec_started()@) as nat,
            );
            lemma_slot_start(
                self.spec_started()@ as nat,
                self.spec_interval()@ as nat,
                (range.end@ - self.spec_started()@) as nat,
            );
        }
        let buckets = difference_of(&self.snapshots[start_info.index], &self.snapshots[end_info.index]);
        let histogram = PlainHistogram { config: self.config, start: start_info.range.start, buckets };
        Ok(Snapshot::from_parts(end_info.range.start, histogram))
    }

    /// The monotonic clock reading for a wall clock time: the same distance
    /// from the origin of the ticks as the time is from the start, or `None`
    /// if the time is earlier than the start or the reading is not
    /// representable.
    fn range_instant(&self, time: UnixInstant) -> (r: Option<Instant>)
        ensures
            match r {
                Some(i) => {
                    &&& time@ >= self.spec_started()@
                    &&& i@ == self.spec_tick_origin()@ + time@ - self.spec_started()@
                },
                None => time@ < self.spec_started()@ || self.spec_tick_origin()@ + time@
                    - self.spec_started()@ > u64::MAX,
            },
    {
        if time.ns < self.started.ns {
            return None;
        }
        let offset = time.ns - self.started.ns;
        if offset > u64::MAX - self.tick_origin.ns {
            return None;
        }
        Some(Instant { ns: self.tick_origin.ns + offset })
    }

    /// Returns the current range of wall clock time covered by the
    /// histogram: the span that ends as far past the start as the window end
    /// (one interval before the next tick as it is read) is past the origin
    /// of the ticks. Each bound is clamped to the representable times.
    pub fn range(&self) -> (r: core::ops::Range<UnixInstant>)
        requires
            self.wf(),
        ensures
            r.start@ + self.spec_span()@ >= r.end@,
            r.end@ >= self.spec_started()@,
    {
        let tick_at = self.tick_at();
        let elapsed = if tick_at.ns >= self.tick_origin.ns && tick_at.ns - self.tick_origin.ns
            >= self.interval.ns {
            tick_at.ns - self.tick_origin.ns - self.interval.ns
        } else {
            0
        };
        let end = self.started.ns.saturating_add(elapsed);
        let start = end.saturating_sub(self.span.ns);
        UnixInstant { ns: start }..UnixInstant { ns: end }
    }

    /// Moves the window forward, if necessary: while the instant is at or
    /// past the next tick as it is read, the thread that moves the next tick
    /// forward by one interval copies the live counters into the snapshot of
    /// the slice of the tick it replaced. The retries end after `u64::MAX`
    /// rounds, which no run reaches.
    fn tick_to(&self, instant: Instant)
        requires
            self.wf(),
    {
        let mut rounds: u64 = 0;
        while rounds < u64::MAX
            invariant
                self.wf(),
            decreases u64::MAX - rounds,
        {
            rounds = rounds + 1;
            let tick_at = self.tick_at();
            // fast path when the window does not need to be advanced
            if instant.ns < tick_at.ns {
                return;
            }
            if tick_at.ns > u64::MAX - self.interval.ns {
                return;
            }
            // To actually snapshot, move the next tick forward to unblock
            // other increments. This will slightly smear things into the
            // snapshot that occur after the end boundary, but this trade-off
            // reduces the pause duration.
            let tick_next = Instant { ns: tick_at.ns + self.interval.ns };
            // cas and if we lose, loop back, another thread may have won
            if self.tick_at.compare_exchange(
                tick_at,
                tick_next,
                Ordering::AcqRel,
                Ordering::Relaxed,
            ).is_ok() {
                // we won the race, copy the live counters into the snapshot of
                // the slice of the replaced tick
                if let Ok(info) = self.snapshot_info(tick_at, tick_next) {
                    copy_counters(&self.live, &self.snapshots[info.index]);
                }
            }
        }
    }

    /// Get the time when the data structure will tick forward next.
    pub fn tick_at(&self) -> (r: Instant) {
        self.tick_at.load(Ordering::Relaxed)
    }

    /// The monotonic clock reading at which the histogram started.
    pub fn tick_origin(&self) -> (r: Instant)
        ensures
            r == self.spec_tick_origin(),
    {
        self.tick_origin
    }

    /// Get the snapshot info for a given instant relative to when the data
    /// structure will tick forward next: the slice that holds it and the
    /// wall clock range of that slice. Returns `OutOfSlidingWindow` if the
    /// instant lies before the origin of the ticks or outside of the window,
    /// which ends one interval before `tick_at` and starts `span` before its
    /// end, and `Overflow` if the range of the slice is not representable.
    pub fn snapshot_info(&self, instant: Instant, tick_at: Instant) -> (r: Result<
        SnapshotInfo,
        Error,
    >)
        requires
            self.wf(),
        ensures
            match self.spec_slot(tick_at@ as nat, instant@ as nat) {
                Some((index, start)) => if start + self.spec_interval()@ <= u64::MAX {
                    &&& r matches Ok(info)
                    &&& info.index == index
                    &&& index < self.spec_num_slices()
                    &&& info.range.start@ == start
                    &&& info.range.end@ == start + self.spec_interval()@
                } else {
                    r == Err::<SnapshotInfo, Error>(Error::Overflow)
                },
                None => r == Err::<SnapshotInfo, Error>(Error::OutOfSlidingWindow),
            },
    {
        if instant.ns < self.tick_origin.ns {
            return Err(Error::OutOfSlidingWindow);
        }
        // the window ends one interval before the next tick; when that is
        // negative, every instant is after it
        if tick_at.ns < self.interval.ns {
            return Err(Error::OutOfSlidingWindow);
        }
        let window_end = tick_at.ns - self.interval.ns;
        if window_end >= self.span.ns && instant.ns < window_end - self.span.ns {
            return Err(Error::OutOfSlidingWindow);
        }
        if instant.ns > window_end {
            return Err(Error::OutOfSlidingWindow);
        }
        let ticks = (instant.ns - self.tick_origin.ns) / self.interval.ns;
        let index = (ticks % (self.num_slices as u64)) as usize;
        proof {
            vstd::arithmetic::div_mod::lemma_fundamental_div_mod(
                (instant.ns - self.tick_origin.ns) as int,
                self.interval.ns as int,
            );
            vstd::arithmetic::mul::lemma_mul_is_commutative(ticks as int, self.interval.ns as int);
        }
        let offset_ns = ticks * self.interval.ns;
        if offset_ns > u64::MAX - self.started.ns {
            return Err(Error::Overflow);
        }
        let start = self.started.ns + offset_ns;
        if start > u64::MAX - self.interval.ns {
            return Err(Error::Overflow);
        }
        let end = start + self.interval.ns;
        Ok(
            SnapshotInfo {
                index,
                range: UnixInstant { ns: start }..UnixInstant { ns: end },
            },
        )
    }

    /// Causes the histogram window to slide forward to `now`, the current
    /// reading of the monotonic clock, if necessary.
    ///
    /// This is useful if you are updating the live buckets directly.
    pub fn snapshot(&self, now: Instant)
        requires
            self.wf(),
    {
        self.tick_to(now);
    }
}

/// A builder that can be used to construct a sliding window histogram.
///
/// By using the `Builder` you can specify a start instant for the histogram.
pub struct Builder {
    config: Config,
    interval: Duration,
    slices: usize,
    started: Option<UnixInstant>,
}

impl Builder {
    /// The bucket configuration.
    pub closed spec fn spec_config(&self) -> Config {
        self.config
    }

    /// The duration of each slice.
    pub closed spec fn spec_interval(&self) -> Duration {
        self.interval
    }

    /// The number of slices.
    pub closed spec fn spec_slices(&self) -> usize {
        self.slices
    }

    /// The start time, if one was given.
    pub closed spec fn spec_started(&self) -> Option<UnixInstant> {
        self.started
    }

    /// Create a new builder for constructing a sliding window histogram.
    ///
    /// # Parameters:
    /// * `a` sets bin width in the linear portion, the bin width is `2^a`
    /// * `b` sets the number of divisions in the logarithmic portion to `2^b`.
    /// * `n` sets the max value as `2^n - 1`.
    /// * `interval` is the duration of each discrete time slice
    /// * `slices` is the number of discrete time slices
    pub fn new(a: u8, b: u8, n: u8, interval: Duration, slices: usize) -> (r: Result<Self, Error>)
        requires
            valid_params(a as nat, b as nat, n as nat) ==> params_fit(a as nat, b as nat, n as nat),
        ensures
            match r {
                Ok(builder) => {
                    &&& valid_params(a as nat, b as nat, n as nat)
                    &&& builder.spec_config().wf()
                    &&& builder.spec_config().linear_power() == a
                    &&& builder.spec_config().spec_grouping_power() == b
                    &&& builder.spec_config().spec_max_value_power() == n
                    &&& builder.spec_interval() == interval
                    &&& builder.spec_slices() == slices
                    &&& builder.spec_started() is None
                },
                Err(e) => {
                    ||| (n > 64 && e == Error::MaxPowerTooHigh)
                    ||| (n <= 64 && a + b >= n && e == Error::MaxPowerTooLow)
                },
            },
    {
        let config = match Config::with_linear_power(a, b, n) {
            Ok(c) => c,
            Err(e) => return Err(e),
        };
        Ok(Self { config, interval, slices, started: None })
    }

    /// Specify the start time for the histogram as a `UnixInstant`.
    pub fn start(self, start: UnixInstant) -> (r: Self)
        ensures
            r.spec_started() == Some(start),
            r.spec_config() == self.spec_config(),
            r.spec_interval() == self.spec_interval(),
            r.spec_slices() == self.spec_slices(),
    {
        Self { started: Some(start), ..self }
    }

    /// Consume the builder and produce a sliding window histogram whose
    /// first window ends at `now`, the current reading of the monotonic
    /// clock. If a start time was given, the start, the origin of the ticks
    /// and the next tick all move by the distance from the start read from
    /// the system clock to it.
    ///
    /// Errors are those of `Histogram::new`, and `Underflow` or `Overflow`
    /// if moving the origin or the next tick leaves the representable
    /// instants.
    pub fn build(self, now: Instant) -> (r: Result<Histogram, Error>)
        requires
            self.spec_config().wf(),
            self.spec_interval()@ * self.spec_slices() <= u64::MAX,
            self.spec_slices() < usize::MAX,
            now@ >= self.spec_interval()@ * self.spec_slices(),
        ensures
            match r {
                Ok(h) => {
                    &&& h.wf()
                    &&& h.spec_config() == self.spec_config()
                    &&& h.spec_interval() == self.spec_interval()
                    &&& self.spec_started() matches Some(s) ==> h.spec_started() == s
                },
                Err(e) => {
                    ||| e == Error::IntervalTooLong
                    ||| e == Error::IntervalTooShort
                    ||| e == Error::Underflow
                    ||| e == Error::Overflow
                },
            },
    {
        let config = self.config;
        proof {
            config.lemma_wf();
            Config::lemma_spec_of(config);
        }
        let mut h = match Histogram::new(
            config.linear_power_value(),
            config.grouping_power(),
            config.max_value_power(),
            self.interval,
            self.slices,
            now,
        ) {
            Ok(h) => h,
            Err(e) => return Err(e),
        };
        proof {
            Config::lemma_spec_of(h.config);
        }
        // if we have some start time, we move the three time fields in the
        // histogram as necessary
        if let Some(start) = self.started {
            if start.ns < h.started.ns {
                let delta = h.started.ns - start.ns;
                if h.tick_origin.ns < delta {
                    return Err(Error::Underflow);
                }
                h.started = start;
                h.tick_origin = Instant { ns: h.tick_origin.ns - delta };
                h.tick_at.fetch_sub(Duration::from_nanos(delta), Ordering::Relaxed);
            } else {
                let delta = start.ns - h.started.ns;
                if h.tick_origin.ns > u64::MAX - delta {
                    return Err(Error::Overflow);
                }
                h.started = start;
                h.tick_origin = Instant { ns: h.tick_origin.ns + delta };
                h.tick_at.fetch_add(Duration::from_nanos(delta), Ordering::Relaxed);
            }
        }
        Ok(h)
    }
}

/// The start of the slice that holds a time `d` past the start: the whole
/// intervals in `d`, from the start, is at most `d` and less than one
/// interval before it.
proof fn lemma_slot_start(started: nat, interval: nat, d: nat)
    requires
        interval > 0,
    ensures
        started + (d / interval) * interval <= started + d,
        started + d < started + (d / interval) * interval + interval,
{
    vstd::arithmetic::div_mod::lemma_fundamental_div_mod(d as int, interval as int);
    vstd::arithmetic::mul::lemma_mul_is_commutative(interval as int, (d / interval) as int);
}

/// A vector of `len` atomic counters at zero.
fn zeroed_counters(len: usize) -> (r: Vec<AtomicU64>)
    ensures
        r@.len() == len,
{
    let mut r: Vec<AtomicU64> = Vec::with_capacity(len);
    while r.len() < len
        invariant
            r@.len() <= len,
        decreases len - r@.len(),
    {
        r.push(AtomicU64::new(0));
    }
    r
}

/// Stores the value of each source counter into the destination counter at
/// the same position.
fn copy_counters(src: &Vec<AtomicU64>, dst: &Vec<AtomicU64>)
    requires
        src@.len() == dst@.len(),
{
    let mut i: usize = 0;
    while i < src.len()
        invariant
            i <= src@.len(),
            src@.len() == dst@.len(),
        decreases src@.len() - i,
    {
        dst[i].store(src[i].load(Ordering::Relaxed), Ordering::Relaxed);
        i = i + 1;
    }
}

/// The counters of `end` minus those of `start`, read one pair at a time,
/// wrapping on underflow.
fn difference_of(start: &Vec<AtomicU64>, end: &Vec<AtomicU64>) -> (r: Vec<u64>)
    requires
        start@.len() == end@.len(),
    ensures
        r@.len() == start@.len(),
{
    let mut r: Vec<u64> = Vec::with_capacity(start.len());
    let mut i: usize = 0;
    while i < start.len()
        invariant
            i <= start@.len(),
            start@.len() == end@.len(),
            r@.len() == i,
        decreases start@.len() - i,
    {
        let s = start[i].load(Ordering::Relaxed);
        let e = end[i].load(Ordering::Relaxed);
        r.push(e.wrapping_sub(s));
        i = i + 1;
    }
    r
}

} // verus!
