use vstd::prelude::*;
use core::sync::atomic::Ordering;
use crate::clocksource::precise::{AtomicInstant, Duration, Instant, UnixInstant};
use crate::heatmap::error::Error;
use crate::histogram::AtomicHistogram;
use crate::histogram::config::{Config, valid_params, params_fit, floor_log2};

verus! {

broadcast use crate::clocksource::group_time_views;

/// The histogram parameters `a`, `b` and `n` for a minimum resolution
/// `2^m`, a minimum resolution range `2^r - 1` and a maximum value
/// `2^n - 1`: buckets of width `2^m` up to `2^r - 1`.
pub open spec fn heatmap_params(m: nat, r: nat, n: nat) -> (nat, nat, nat) {
    (m, (r - m - 1) as nat, n)
}

/// The powers describe a histogram whose counters fit: `m < r <= n <= 64`.
pub open spec fn heatmap_params_ok(m: nat, r: nat, n: nat) -> bool {
    let p = heatmap_params(m, r, n);
    &&& m < r
    &&& valid_params(p.0, p.1, p.2)
    &&& params_fit(p.0, p.1, p.2)
}

/// The number of slices of a heatmap: the smallest multiple of the
/// resolution that is at least `span + resolution`, in resolutions.
pub open spec fn slice_count(span: nat, resolution: nat) -> nat {
    ((span + resolution + resolution - 1) as nat) / resolution
}

/// The exponent of the smallest power of two that is at least `v`.
pub open spec fn ceil_log2(v: nat) -> nat {
    if v <= 1 {
        0
    } else {
        floor_log2((v - 1) as nat) + 1
    }
}

/// A `Heatmap` stores counts for timestamped values over a configured span of
/// time.
///
/// Internally, it is represented as a ring buffer of histograms with one
/// additional histogram ("summary") to track all counts within the span of
/// time. Each histogram covers a time slice whose width is specified by
/// `resolution`. Old histograms age-out as time moves forward and they are
/// subtracted from the summary histogram at that point.
///
/// This acts as a moving histogram, such that requesting a percentile returns
/// a percentile from across the configured span of time. The counters and the
/// next tick are atomic, so nothing is known of them as they are read.
pub struct Heatmap {
    // these two fields are only set at creation time
    span: Duration,
    resolution: Duration,
    // the wall clock and monotonic clock readings taken as the start
    start_ts: UnixInstant,
    tick_origin: Instant,
    summary: AtomicHistogram,
    histograms: Vec<AtomicHistogram>,
    // the instant that the current slice is "current" until
    tick_at: AtomicInstant,
}

/// A `Builder` allows for constructing a `Heatmap` with the desired
/// configuration.
pub struct Builder {
    // minimum resolution parameter `M = 2^m`
    m: u32,
    // minimum resolution range parameter `R = 2^r - 1`
    r: u32,
    // maximum value parameter `N = 2^n - 1`
    n: u32,
    // span of time represented by the heatmap
    span: Duration,
    // the resolution in the time domain
    resolution: Duration,
    // align tick boundary in `Heatmap` with `resolution`
    align: bool,
}

impl Builder {
    /// The minimum resolution power `m`.
    pub closed spec fn spec_m(&self) -> u32 {
        self.m
    }

    /// The minimum resolution range power `r`.
    pub closed spec fn spec_r(&self) -> u32 {
        self.r
    }

    /// The maximum value power `n`.
    pub closed spec fn spec_n(&self) -> u32 {
        self.n
    }

    /// The span of time.
    pub closed spec fn spec_span(&self) -> Duration {
        self.span
    }

    /// The resolution in the time domain.
    pub closed spec fn spec_resolution(&self) -> Duration {
        self.resolution
    }

    /// Whether the start is aligned with the resolution.
    pub closed spec fn spec_align(&self) -> bool {
        self.align
    }

    /// The builder's settings make a heatmap whose first tick, one
    /// resolution past `now`, is a representable instant.
    pub open spec fn buildable(&self, now: Instant) -> bool {
        &&& heatmap_params_ok(self.spec_m() as nat, self.spec_r() as nat, self.spec_n() as nat)
        &&& self.spec_resolution()@ > 0
        &&& self.spec_span()@ + 2 * self.spec_resolution()@ <= u64::MAX
        &&& slice_count(self.spec_span()@ as nat, self.spec_resolution()@ as nat) <= usize::MAX
        &&& now@ + self.spec_resolution()@ <= u64::MAX
    }

    /// Consume the `Builder` and return a `Heatmap` whose clock starts at
    /// `now`, the current reading of the monotonic clock. With `align`, the
    /// start is moved back by the remainder of the system time against the
    /// resolution, as a best effort to line it up with a wall clock boundary.
    pub fn build(self, now: Instant) -> (r: Result<Heatmap, Error>)
        requires
            self.buildable(now),
        ensures
            r matches Ok(h) && {
                &&& h.wf()
                &&& h.spec_resolution() == self.spec_resolution()
                &&& h.spec_slices() == slice_count(
                    self.spec_span()@ as nat,
                    self.spec_resolution()@ as nat,
                )
                &&& h.spec_span()@ == (h.spec_slices() - 1) * self.spec_resolution()@
                &&& h.spec_config() == Config::spec_of(
                    self.spec_m() as nat,
                    (self.spec_r() - self.spec_m() - 1) as nat,
                    self.spec_n() as nat,
                )
                &&& !self.spec_align() ==> h.spec_tick_origin() == now
            },
    {
        if self.align {
            // get the remainder against resolution
            let monotonic_now = now;
            let system_now = UnixInstant::now();
            let delta = Duration::from_nanos(system_now.ns % self.resolution.ns);
            Heatmap::new(
                self.m,
                self.r,
                self.n,
                self.span,
                self.resolution,
                system_now.checked_sub(delta),
                monotonic_now.checked_sub(delta),
                now,
            )
        } else {
            Heatmap::new(self.m, self.r, self.n, self.span, self.resolution, None, None, now)
        }
    }

    /// Sets the width of the smallest bucket in the `Heatmap`.
    ///
    /// As the `Heatmap` uses base-2 internally, the resolution will be the
    /// largest power of two that is less than or equal to the provided value.
    /// For example, if the minimum resolution is set to 10, the width of the
    /// smallest bucket will be 8. A width of zero is taken as one.
    pub fn min_resolution(self, width: u64) -> (r: Self)
        ensures
            r.spec_m() == (if width == 0 {
                0
            } else {
                floor_log2(width as nat)
            }),
            r.spec_r() == self.spec_r(),
            r.spec_n() == self.spec_n(),
            r.spec_span() == self.spec_span(),
            r.spec_resolution() == self.spec_resolution(),
            r.spec_align() == self.spec_align(),
    {
        let m = if width == 0 {
            0
        } else {
            proof {
                crate::histogram::config::lemma_leading_zeros_log2(width);
            }
            63 - width.leading_zeros()
        };
        Self { m, ..self }
    }

    /// Sets the maximum value that the minimum resolution extends to: the
    /// power `r` becomes one more than the exponent of the smallest power of
    /// two that is at least the value.
    pub fn min_resolution_range(self, value: u64) -> (r: Self)
        requires
            value <= 0x8000_0000_0000_0000u64,
        ensures
            r.spec_r() == ceil_log2(value as nat) + 1,
            r.spec_m() == self.spec_m(),
            r.spec_n() == self.spec_n(),
            r.spec_span() == self.spec_span(),
            r.spec_resolution() == self.spec_resolution(),
            r.spec_align() == self.spec_align(),
    {
        let r = next_power_exponent(value) + 1;
        Self { r, ..self }
    }

    /// Sets the maximum value that can be recorded into the `Heatmap`: the
    /// power `n` becomes one more than the exponent of the smallest power of
    /// two that is at least the value.
    pub fn maximum_value(self, value: u64) -> (r: Self)
        requires
            value <= 0x8000_0000_0000_0000u64,
        ensures
            r.spec_n() == ceil_log2(value as nat) + 1,
            r.spec_m() == self.spec_m(),
            r.spec_r() == self.spec_r(),
            r.spec_span() == self.spec_span(),
            r.spec_resolution() == self.spec_resolution(),
            r.spec_align() == self.spec_align(),
    {
        let n = next_power_exponent(value) + 1;
        Self { n, ..self }
    }

    /// Sets the duration that is covered by the `Heatmap`.
    ///
    /// Values that are older than the duration will be dropped as they
    /// age-out. The true duration covered by the heatmap is a multiple of
    /// the resolution, so it may be slightly longer.
    pub fn span(self, duration: Duration) -> (r: Self)
        ensures
            r.spec_span() == duration,
            r.spec_m() == self.spec_m(),
            r.spec_r() == self.spec_r(),
            r.spec_n() == self.spec_n(),
            r.spec_resolution() == self.spec_resolution(),
            r.spec_align() == self.spec_align(),
    {
        Self { span: duration, ..self }
    }

    /// Sets the resolution in the time domain.
    ///
    /// Increments with similar timestamps will be grouped together and age-out
    /// together.
    pub fn resolution(self, duration: Duration) -> (r: Self)
        ensures
            r.spec_resolution() == duration,
            r.spec_m() == self.spec_m(),
            r.spec_r() == self.spec_r(),
            r.spec_n() == self.spec_n(),
            r.spec_span() == self.spec_span(),
            r.spec_align() == self.spec_align(),
    {
        Self { resolution: duration, ..self }
    }

    /// Align start for the resolution given: a best-effort attempt to put
    /// the start at or near the latest multiple of `resolution` in the past.
    pub fn align(self, align: bool) -> (r: Self)
        ensures
            r.spec_align() == align,
            r.spec_m() == self.spec_m(),
            r.spec_r() == self.spec_r(),
            r.spec_n() == self.spec_n(),
            r.spec_span() == self.spec_span(),
            r.spec_resolution() == self.spec_resolution(),
    {
        Self { align, ..self }
    }
}

/// The exponent of the smallest power of two that is at least `value`.
fn next_power_exponent(value: u64) -> (r: u32)
    requires
        value <= 0x8000_0000_0000_0000u64,
    ensures
        r == ceil_log2(value as nat),
        r <= 64,
{
    if value <= 1 {
        0
    } else {
        proof {
            crate::histogram::config::lemma_leading_zeros_log2((value - 1) as u64);
        }
        64 - (value - 1).leading_zeros()
    }
}

/// The value `(idx + k) % slices`, for `idx < slices` and `k <= slices`.
fn index_after(idx: usize, k: usize, slices: usize) -> (r: usize)
    requires
        idx < slices,
        k <= slices,
    ensures
        r == (idx + k) % (slices as int),
        r < slices,
{
    if idx >= slices - k {
        proof {
            vstd::arithmetic::div_mod::lemma_mod_sub_multiples_vanish(
                (idx + k) as int,
                slices as int,
            );
            vstd::arithmetic::div_mod::lemma_small_mod((idx + k - slices) as nat, slices as nat);
        }
        idx - (slices - k)
    } else {
        proof {
            vstd::arithmetic::div_mod::lemma_small_mod((idx + k) as nat, slices as nat);
        }
        idx + k
    }
}

impl Heatmap {
    /// The span covered: a whole number of resolutions.
    pub closed spec fn spec_span(&self) -> Duration {
        self.span
    }

    /// The resolution in the time domain.
    pub closed spec fn spec_resolution(&self) -> Duration {
        self.resolution
    }

    /// The wall clock time at which the heatmap started.
    pub closed spec fn spec_start_ts(&self) -> UnixInstant {
        self.start_ts
    }

    /// The monotonic clock reading at which the heatmap started.
    pub closed spec fn spec_tick_origin(&self) -> Instant {
        self.tick_origin
    }

    /// The number of slices.
    pub closed spec fn spec_slices(&self) -> nat {
        self.histograms@.len()
    }

    /// The configuration of the histograms.
    pub closed spec fn spec_config(&self) -> Config {
        self.summary.spec_config()
    }

    /// The histogram of slice `i`.
    pub closed spec fn spec_histogram(&self, i: int) -> AtomicHistogram {
        self.histograms@[i]
    }

    /// The whole resolutions from the origin to `tick_at`, or zero if
    /// `tick_at` is before the origin.
    pub open spec fn spec_ticks(&self, tick_at: Instant) -> nat {
        if tick_at@ >= self.spec_tick_origin()@ {
            ((tick_at@ - self.spec_tick_origin()@) as nat) / (self.spec_resolution()@ as nat)
        } else {
            0
        }
    }

    /// The number of active slices for a next tick at `tick_at`: the whole
    /// resolutions since the origin, but at most one less than the number of
    /// slices.
    pub open spec fn spec_active_at(&self, tick_at: Instant) -> nat {
        let ticks = self.spec_ticks(tick_at);
        if ticks < self.spec_slices() - 1 {
            ticks
        } else {
            (self.spec_slices() - 1) as nat
        }
    }

    /// The index of the current slice for a next tick at `tick_at`: one less
    /// than the whole resolutions since the origin, modulo the number of
    /// slices, or zero before the first tick.
    pub open spec fn spec_slice_index(&self, tick_at: Instant) -> nat {
        let ticks = self.spec_ticks(tick_at);
        if ticks == 0 {
            0
        } else {
            ((ticks - 1) as nat) % self.spec_slices()
        }
    }

    /// The resolution is positive, there is at least one slice, the span is
    /// the resolution times the number of slices less the buffer slice, and
    /// every histogram shares the configuration of the summary.
    pub closed spec fn wf(&self) -> bool {
        &&& self.resolution@ > 0
        &&& self.histograms@.len() >= 1
        &&& self.span@ == (self.histograms@.len() - 1) * self.resolution@
        &&& self.summary.wf()
        &&& forall|i: int|
            0 <= i < self.histograms@.len() ==> (#[trigger] self.histograms@[i]).wf()
                && self.histograms@[i].spec_config() == self.summary.spec_config()
    }

    /// Create a new `Heatmap` which stores counts for timestamped values over
    /// a configured span of time.
    ///
    /// - `m` - sets the minimum resolution `M = 2^m`, the smallest bucket
    /// width.
    /// - `r` - sets the minimum resolution range `R = 2^r - 1`, the largest
    /// value that the minimum resolution extends to; `r` must be greater than
    /// `m`.
    /// - `n` - sets the maximum value `N = 2^n - 1`; `n` must be at least `r`.
    /// - `span` - sets the total duration that the heatmap covers
    /// - `resolution` - sets the resolution in the time domain.
    /// - `start_ts` - the `UnixInstant` the `Heatmap` should have started its
    /// clock, or `None` for the current reading of the system clock.
    /// - `start_instant` - the `Instant` the `Heatmap` should have started its
    /// clock, or `None` for `now`, the current reading of the monotonic clock.
    ///
    /// One slice is allocated for each resolution in the span, plus one so
    /// that there is always a cleared slice in the ring.
    pub fn new(
        m: u32,
        r: u32,
        n: u32,
        span: Duration,
        resolution: Duration,
        start_ts: Option<UnixInstant>,
        start_instant: Option<Instant>,
        now: Instant,
    ) -> (res: Result<Self, Error>)
        requires
            heatmap_params_ok(m as nat, r as nat, n as nat),
            resolution@ > 0,
            span@ + 2 * resolution@ <= u64::MAX,
            slice_count(span@ as nat, resolution@ as nat) <= usize::MAX,
            (match start_instant {
                Some(i) => i,
                None => now,
            })@ + resolution@ <= u64::MAX,
        ensures
            res matches Ok(h) && {
                &&& h.wf()
                &&& h.spec_slices() == slice_count(span@ as nat, resolution@ as nat)
                &&& h.spec_span()@ == (h.spec_slices() - 1) * resolution@
                &&& h.spec_resolution() == resolution
                &&& h.spec_config() == Config::spec_of(m as nat, (r - m - 1) as nat, n as nat)
                &&& h.spec_tick_origin() == match start_instant {
                    Some(i) => i,
                    None => now,
                }
                &&& start_ts matches Some(t) ==> h.spec_start_ts() == t
            },
    {
        let start_ts = match start_ts {
            Some(t) => t,
            None => UnixInstant::now(),
        };
        let tick_origin = match start_instant {
            Some(i) => i,
            None => now,
        };
        let config = match Config::with_linear_power(m as u8, (r - m - 1) as u8, n as u8) {
            Ok(c) => c,
            Err(_) => unreached(),
        };
        proof {
            Config::lemma_spec_of(config);
        }
        let res = resolution.as_nanos();
        // `true_span` is always a multiple of `resolution`, which means it may
        // be greater than the `span` provided. Assuming
        // `true_span / resolution = k`, we allocate `k + 1` histograms so we
        // always have a cleared one in the ring
        let span_stop = span.as_nanos() + res;
        let mut true_span: u64 = 0;
        let mut histograms: Vec<AtomicHistogram> = Vec::new();
        proof {
            vstd::arithmetic::mul::lemma_mul_basics(res as int);
        }
        while true_span < span_stop
            invariant
                res > 0,
                span_stop == span@ + res,
                span_stop + res <= u64::MAX,
                slice_count(span@ as nat, res as nat) <= usize::MAX,
                true_span == histograms@.len() * res,
                histograms@.len() <= slice_count(span@ as nat, res as nat),
                histograms@.len() > 0 ==> (histograms@.len() - 1) * res < span_stop,
                config.wf(),
                forall|i: int|
                    0 <= i < histograms@.len() ==> (#[trigger] histograms@[i]).wf()
                        && histograms@[i].spec_config() == config,
            decreases slice_count(span@ as nat, res as nat) - histograms@.len(),
        {
            proof {
                lemma_slice_count_bound(span@ as nat, res as nat, histograms@.len());
                vstd::arithmetic::mul::lemma_mul_is_distributive_add_other_way(
                    res as int,
                    histograms@.len() as int,
                    1,
                );
            }
            histograms.push(AtomicHistogram::with_config(&config));
            true_span = true_span + res;
        }
        proof {
            lemma_slice_count_exact(span@ as nat, res as nat, histograms@.len());
            vstd::arithmetic::mul::lemma_mul_is_distributive_sub_other_way(
                res as int,
                histograms@.len() as int,
                1,
            );
        }
        let tick_at = AtomicInstant::new(Instant { ns: tick_origin.ns + res });
        Ok(
            Self {
                span: Duration::from_nanos(true_span - res),
                resolution,
                start_ts,
                tick_origin,
                summary: AtomicHistogram::with_config(&config),
                histograms,
                tick_at,
            },
        )
    }

    /// Creates a `Builder` with the default values `m = 0`, `r = 10`,
    /// `n = 30`, `span = 60s`, `resolution = 1s`.
    ///
    /// This would create a `Heatmap` with 61 total histograms, each with
    /// 11264 buckets which can store values from 1 to 1_073_741_823 with
    /// values 1 to 1023 being stored in buckets with a width of 1. Such a
    /// `Heatmap` would be appropriate for latencies measured in nanoseconds
    /// where the max expected latency is one second and reporting covers the
    /// past minute.
    pub fn builder() -> (r: Builder)
        ensures
            r.spec_m() == 0,
            r.spec_r() == 10,
            r.spec_n() == 30,
            r.spec_span()@ == 60_000_000_000,
            r.spec_resolution()@ == 1_000_000_000,
            !r.spec_align(),
    {
        Builder {
            m: 0,
            r: 10,
            n: 30,
            span: Duration::from_secs(60),
            resolution: Duration::from_secs(1),
            align: false,
        }
    }

    /// Returns the true span that is tracked by the `Heatmap`.
    pub fn span(&self) -> (r: Duration)
        ensures
            r == self.spec_span(),
    {
        self.span
    }

    /// Returns the `Duration` covered by a single slice of histogram.
    pub fn resolution(&self) -> (r: Duration)
        ensures
            r == self.spec_resolution(),
    {
        self.resolution
    }

    /// Returns the start timestamp of the `Heatmap`.
    pub fn start_at(&self) -> (r: UnixInstant)
        ensures
            r == self.spec_start_ts(),
    {
        self.start_ts
    }

    /// Returns the number of histogram slices the `Heatmap` holds, each
    /// covering `resolution`. Note one more slice is allocated than what
    /// `span` demands.
    pub fn slices(&self) -> (r: usize)
        ensures
            r == self.spec_slices(),
    {
        self.histograms.len()
    }

    /// Returns the number of buckets stored within each histogram in the
    /// `Heatmap`.
    pub fn buckets(&self) -> (r: usize)
        requires
            self.wf(),
        ensures
            r == self.spec_config().spec_total_bins(),
    {
        proof {
            self.summary.spec_config().lemma_wf();
        }
        self.summary.config().total_bins()
    }

    /// The number of whole resolutions from the origin to `tick_at`, or
    /// zero if `tick_at` is before the origin.
    fn ticks_since_origin(&self, tick_at: Instant) -> (r: u64)
        requires
            self.wf(),
        ensures
            tick_at@ >= self.spec_tick_origin()@ ==> r == ((tick_at@ - self.spec_tick_origin()@)
                as nat) / (self.spec_resolution()@ as nat),
            tick_at@ < self.spec_tick_origin()@ ==> r == 0,
    {
        if tick_at.ns < self.tick_origin.ns {
            0
        } else {
            (tick_at.ns - self.tick_origin.ns) / self.resolution.ns
        }
    }

    /// The number of valid and active histogram slices for a next tick at
    /// `tick_at`: the whole resolutions elapsed since the origin, but at
    /// most one less than the number of slices.
    fn active_slices_at(&self, tick_at: Instant) -> (r: usize)
        requires
            self.wf(),
        ensures
            r == self.spec_active_at(tick_at),
            r < self.spec_slices(),
    {
        let ticks = self.ticks_since_origin(tick_at);
        let limit = self.histograms.len() - 1;
        if ticks < limit as u64 {
            ticks as usize
        } else {
            limit
        }
    }

    /// Returns the number of valid and active histogram slices in the
    /// `Heatmap`, for the next tick as it is read.
    pub fn active_slices(&self) -> (r: usize)
        requires
            self.wf(),
        ensures
            r < self.spec_slices(),
            exists|t: Instant| r == #[trigger] self.spec_active_at(t),
    {
        let tick_at = self.tick_at.load(Ordering::Relaxed);
        self.active_slices_at(tick_at)
    }

    /// The index of the current slice for a next tick at `tick_at`: one less
    /// than the whole resolutions since the origin, modulo the number of
    /// slices (zero before the first tick).
    fn slice_idx(&self, tick_at: Instant) -> (r: usize)
        requires
            self.wf(),
        ensures
            r < self.spec_slices(),
            r == self.spec_slice_index(tick_at),
    {
        let ticks = self.ticks_since_origin(tick_at);
        let slices = self.histograms.len();
        if ticks == 0 {
            0
        } else {
            ((ticks - 1) % (slices as u64)) as usize
        }
    }

    /// The outcome of an increment of `value` at `time` once the clock has
    /// been handled: with the next tick at `tick_at`, moved by `ntick`
    /// resolutions. `OutOfSpan` if the time is more than one resolution
    /// behind the next tick and older than the active slices, else
    /// `OutOfRange` if the value cannot be stored, else `StaleClock` if the
    /// next tick moved by more than one resolution.
    pub open spec fn spec_increment_result(
        &self,
        tick_at: Instant,
        ntick: u64,
        time: Instant,
        value: u64,
    ) -> Result<(), Error> {
        let res = self.spec_resolution()@ as nat;
        let behind: nat = if time@ < tick_at@ {
            (tick_at@ - time@) as nat
        } else {
            0
        };
        let active = self.spec_active_at(tick_at);
        if behind > res && (active == 0 || behind / res > active - 1) {
            Err(Error::OutOfSpan)
        } else if value > self.spec_config().spec_max() {
            Err(Error::OutOfRange)
        } else if ntick > 1 {
            Err(Error::StaleClock)
        } else {
            Ok(())
        }
    }

    /// Increment a time-value pair by a specified count.
    ///
    /// The clock is first advanced to `time`; then the count is added to the
    /// summary and to the slice of the time: the current slice, or an
    /// earlier one if the time is more than one resolution behind the next
    /// tick. Returns `OutOfSpan` if the time is older than the active slices,
    /// `OutOfRange` if the value cannot be stored, and `StaleClock`, after
    /// recording the count, if the clock moved forward by more than one
    /// slice.
    pub fn increment(&self, time: Instant, value: u64, count: u32) -> (r: Result<(), Error>)
        requires
            self.wf(),
        ensures
            exists|t: Instant, k: u64|
                r == #[trigger] self.spec_increment_result(t, k, time, value) && (k > 0 ==> t@
                    - self.spec_resolution()@ <= time@ < t@),
            r is Ok ==> value <= self.spec_config().spec_max(),
            value > self.spec_config().spec_max() ==> (r matches Err(e) && (e == Error::OutOfRange
                || e == Error::OutOfSpan)),
    {
        let (tick_at, idx, ntick, _) = self.tick(time);
        self.increment_after_tick(tick_at, idx, ntick, time, value, count)
    }

    /// How far `time` lies behind the next tick `tick_at`, or zero if it does
    /// not.
    pub open spec fn spec_behind(tick_at: Instant, time: Instant) -> nat {
        if time@ < tick_at@ {
            (tick_at@ - time@) as nat
        } else {
            0
        }
    }

    /// The slice that a sample at `time` is recorded in, for the next tick
    /// `tick_at` and the current slice `idx`: the current slice unless the
    /// time is more than one resolution behind the next tick; then the slice
    /// `k = behind / resolution` before the current one, or `OutOfSpan` if
    /// that is older than the active slices.
    ///
    /// When `idx` is the current slice of `tick_at`, the slice found for a
    /// late sample is the one that was current when the next tick was `k`
    /// resolutions earlier: the tick at or just after the sample's time.
    pub fn slice_for_time(&self, tick_at: Instant, idx: usize, time: Instant) -> (r: Result<
        usize,
        Error,
    >)
        requires
            self.wf(),
            idx < self.spec_slices(),
        ensures
            ({
                let res = self.spec_resolution()@ as nat;
                let behind = Self::spec_behind(tick_at, time);
                let k = behind / res;
                let active = self.spec_active_at(tick_at);
                let slices = self.spec_slices();
                &&& r is Err <==> (behind > res && (active == 0 || k > active - 1))
                &&& behind <= res ==> r == Ok::<usize, Error>(idx)
                &&& match r {
                    Ok(i) => {
                        &&& i < slices
                        &&& behind > res ==> i == (idx + slices - k) % (slices as int)
                        &&& behind > res && idx == self.spec_slice_index(tick_at) ==> {
                            &&& tick_at@ - (k + 1) * res < time@ <= tick_at@ - k * res
                            &&& i == self.spec_slice_index(
                                Instant::of((tick_at@ - k * res) as u64),
                            )
                        }
                    },
                    Err(e) => e == Error::OutOfSpan,
                }
            }),
    {
        let behind = if time.ns < tick_at.ns {
            tick_at.ns - time.ns
        } else {
            0
        };
        if behind <= self.resolution.ns {
            return Ok(idx);
        }
        // the value belonged to a past slice of the histogram, should be an
        // uncommon path
        let idx_backward = behind / self.resolution.ns;
        let active = self.active_slices_at(tick_at);
        if active == 0 || idx_backward > (active - 1) as u64 {
            return Err(Error::OutOfSpan);
        }
        let slices = self.histograms.len();
        proof {
            let res = self.resolution@ as nat;
            vstd::arithmetic::div_mod::lemma_fundamental_div_mod(behind as int, res as int);
            vstd::arithmetic::mul::lemma_mul_is_commutative(res as int, idx_backward as int);
            vstd::arithmetic::mul::lemma_mul_is_distributive_add_other_way(
                res as int,
                idx_backward as int,
                1,
            );
            vstd::arithmetic::mul::lemma_mul_is_commutative(res as int, idx_backward as int + 1);
            if idx == self.spec_slice_index(tick_at) {
                self.lemma_late_slice(tick_at, idx_backward as nat);
            }
        }
        Ok(index_after(idx, slices - idx_backward as usize, slices))
    }

    /// The slice `k` before the current slice of a next tick is the current
    /// slice of the next tick `k` resolutions earlier, while that is one of
    /// the active slices.
    pub proof fn lemma_late_slice(&self, tick_at: Instant, k: nat)
        requires
            self.wf(),
            k < self.spec_active_at(tick_at),
        ensures
            k * self.spec_resolution()@ <= tick_at@,
            (self.spec_slice_index(tick_at) + self.spec_slices() - k) % (self.spec_slices() as int)
                == self.spec_slice_index(
                Instant::of((tick_at@ - k * self.spec_resolution()@) as u64),
            ),
    {
        let res = self.spec_resolution()@ as int;
        let s = self.spec_slices() as int;
        let o = self.spec_tick_origin()@ as int;
        let x = tick_at@ - o;
        let t = self.spec_ticks(tick_at) as int;
        assert(t > k);
        assert(tick_at@ >= o);
        assert(t == x / res);
        vstd::arithmetic::div_mod::lemma_fundamental_div_mod(x, res);
        let rem = x % res;
        vstd::arithmetic::mul::lemma_mul_is_commutative(res, t);
        vstd::arithmetic::mul::lemma_mul_is_distributive_sub(res, t, k as int);
        vstd::arithmetic::mul::lemma_mul_is_commutative(res, k as int);
        vstd::arithmetic::mul::lemma_mul_is_commutative(res, t - k);
        vstd::arithmetic::mul::lemma_mul_inequality(k as int, t, res);
        assert(k * res <= t * res);
        assert(t * res <= x);
        let later = Instant::of((tick_at@ - k * res) as u64);
        assert(later@ == tick_at@ - k * res) by {
            Instant::lemma_of((tick_at@ - k * res) as u64);
        }
        vstd::arithmetic::div_mod::lemma_fundamental_div_mod_converse(x - k * res, res, t - k, rem);
        assert(self.spec_ticks(later) == t - k);
        let m = t - 1 - k;
        if k > 0 {
            vstd::arithmetic::div_mod::lemma_add_mod_noop(m + k, s - k, s);
            vstd::arithmetic::div_mod::lemma_small_mod((s - k) as nat, s as nat);
            vstd::arithmetic::div_mod::lemma_mod_add_multiples_vanish(m, s);
        } else {
            let i = (t - 1) % s;
            vstd::arithmetic::div_mod::lemma_mod_add_multiples_vanish(i, s);
            vstd::arithmetic::div_mod::lemma_mod_bound(t - 1, s);
            vstd::arithmetic::div_mod::lemma_small_mod(i as nat, s as nat);
        }
    }

    /// Adds `count` at `value` for a time-value pair once the clock has been
    /// handled, as `increment` does: `tick_at` is the next tick, `idx` the
    /// current slice and `ntick` the number of resolutions by which the next
    /// tick moved.
    pub fn increment_after_tick(
        &self,
        tick_at: Instant,
        idx: usize,
        ntick: u64,
        time: Instant,
        value: u64,
        count: u32,
    ) -> (r: Result<(), Error>)
        requires
            self.wf(),
            idx < self.spec_slices(),
        ensures
            r == self.spec_increment_result(tick_at, ntick, time, value),
    {
        let idx = match self.slice_for_time(tick_at, idx, time) {
            Ok(i) => i,
            Err(e) => return Err(e),
        };
        match self.summary.add(value, count as u64) {
            Ok(()) => {},
            Err(e) => return Err(Error::from_histogram(e)),
        }
        match self.histograms[idx].add(value, count as u64) {
            Ok(()) => {},
            Err(e) => return Err(Error::from_histogram(e)),
        }
        if ntick <= 1 {
            Ok(())
        } else {
            Err(Error::StaleClock)
        }
    }

    /// Access the summary histogram of this heatmap.
    ///
    /// Note that concurrent modifications to the heatmap will continue to show
    /// up in the summary histogram while it is being read so sequential
    /// queries may not return consistent results.
    pub fn summary(&self) -> (r: &AtomicHistogram)
        ensures
            r.spec_config() == self.spec_config(),
    {
        &self.summary
    }

    /// Creates an iterator over the active slices of this heatmap, oldest
    /// first.
    pub fn iter(&self) -> (r: Iter<'_>)
        requires
            self.wf(),
        ensures
            r.wf(),
            r.spec_heatmap() == self,
            r.spec_count() == 0,
    {
        Iter::new(self)
    }

    /// Where the next tick moves for a read next tick `tick_at` and a clock
    /// reading `now`, with the number of resolutions moved: nowhere while
    /// `now` is before `tick_at` or when the move is not representable, and
    /// else to the first tick past `now`.
    pub open spec fn spec_tick_outcome(&self, tick_at: Instant, now: Instant) -> Option<(nat, nat)> {
        if now@ < tick_at@ {
            None
        } else {
            let k = ((now@ - tick_at@) as nat) / (self.spec_resolution()@ as nat) + 1;
            let t = tick_at@ + k * self.spec_resolution()@;
            if k <= u64::MAX && t <= u64::MAX {
                Some((t as nat, k as nat))
            } else {
                None
            }
        }
    }

    /// The next tick read as `tick_at` moves to `t`, by `k` resolutions, for
    /// the clock reading `now`.
    pub open spec fn spec_tick_moves(&self, tick_at: Instant, now: Instant, t: Instant, k: u64) -> bool {
        self.spec_tick_outcome(tick_at, now) == Some((t@ as nat, k as nat))
    }

    /// The move of the next tick, read as `tick_at`, that the clock reading
    /// `now` calls for: `None` while `now` is before `tick_at` or when the
    /// move is not representable, and else the first tick past `now` with
    /// the number of resolutions moved.
    pub fn tick_outcome(&self, tick_at: Instant, now: Instant) -> (r: Option<(Instant, u64)>)
        requires
            self.wf(),
        ensures
            match r {
                Some((t, k)) => {
                    &&& self.spec_tick_outcome(tick_at, now) == Some((t@ as nat, k as nat))
                    &&& k > 0
                    &&& t@ - self.spec_resolution()@ <= now@ < t@
                },
                None => self.spec_tick_outcome(tick_at, now) is None,
            },
    {
        if now.ns < tick_at.ns {
            return None;
        }
        let res = self.resolution.ns;
        let behind = (now.ns - tick_at.ns) / res;
        if behind == u64::MAX {
            return None;
        }
        let ticks_forward = behind + 1;
        match self.advance(tick_at, ticks_forward) {
            Some(t) => {
                proof {
                    let d = (now.ns - tick_at.ns) as int;
                    vstd::arithmetic::div_mod::lemma_fundamental_div_mod(d, res as int);
                    vstd::arithmetic::mul::lemma_mul_is_distributive_add_other_way(
                        res as int,
                        behind as int,
                        1,
                    );
                    vstd::arithmetic::mul::lemma_mul_is_commutative(res as int, behind as int);
                    vstd::arithmetic::mul::lemma_mul_is_commutative(
                        res as int,
                        ticks_forward as int,
                    );
                }
                Some((t, ticks_forward))
            },
            None => None,
        }
    }

    /// Handles the housekeeping that comes due as the clock advances to
    /// `now`: if `now` is at or past the next tick, the thread that moves the
    /// next tick forward (to the first one past `now`) clears the slices that
    /// the move brings into use and subtracts them from the summary.
    ///
    /// Returns the next tick, the index of the current slice, by how many
    /// resolutions this call moved the next tick, and whether the retries ran
    /// out (after `u64::MAX` lost races, which no run reaches). A count of
    /// zero means that this call moved nothing: the next tick it read was
    /// past `now`, the move was not representable, or the retries ran out.
    pub fn tick(&self, now: Instant) -> (r: (Instant, usize, u64, bool))
        requires
            self.wf(),
        ensures
            r.1 < self.spec_slices(),
            r.1 == self.spec_slice_index(r.0),
            r.2 == 0 && !r.3 ==> (now@ < r.0@ || self.spec_tick_outcome(r.0, now) is None),
            r.3 ==> r.2 == 0,
            r.2 > 0 ==> exists|t0: Instant| #[trigger] self.spec_tick_moves(t0, now, r.0, r.2),
            r.2 > 0 ==> r.0@ - self.spec_resolution()@ <= now@ < r.0@,
    {
        let mut rounds: u64 = 0;
        let mut last = self.tick_at.load(Ordering::Relaxed);
        while rounds < u64::MAX
            invariant
                self.wf(),
            decreases u64::MAX - rounds,
        {
            rounds = rounds + 1;
            let tick_at = self.tick_at.load(Ordering::Relaxed);
            last = tick_at;
            let (new_tick, ticks_forward) = match self.tick_outcome(tick_at, now) {
                Some(o) => o,
                // the common case when a heatmap is frequently updated
                None => return (tick_at, self.slice_idx(tick_at), 0, false),
            };
            if self.tick_at.compare_exchange(
                tick_at,
                new_tick,
                Ordering::AcqRel,
                Ordering::Relaxed,
            ).is_ok() {
                // Because the compare-and-exchange succeeded, this thread has
                // exclusive access to the slices between `tick_at` and
                // `new_tick`: starting two slices to the right of `tick_at`
                // and ending with the slice immediately to the right of
                // `new_tick`. When the ticks fall further behind, the buffer
                // slice can no longer guarantee that new increments land in a
                // cleared slice, and the summary may be off; all slices that
                // should be cleared are cleared, nothing more is corrected.
                self.clear_slices(self.slice_idx(tick_at), ticks_forward);
                proof {
                    assert(self.spec_tick_moves(tick_at, now, new_tick, ticks_forward));
                }
                return (new_tick, self.slice_idx(new_tick), ticks_forward, false);
            }
        }
        (last, self.slice_idx(last), 0, true)
    }

    /// The instant `ticks` resolutions after `tick_at`, or `None` if it is
    /// not representable.
    fn advance(&self, tick_at: Instant, ticks: u64) -> (r: Option<Instant>)
        requires
            self.wf(),
        ensures
            match r {
                Some(t) => t@ == tick_at@ + ticks * self.spec_resolution()@,
                None => tick_at@ + ticks * self.spec_resolution()@ > u64::MAX,
            },
    {
        match ticks.checked_mul(self.resolution.ns) {
            Some(d) => match tick_at.ns.checked_add(d) {
                Some(t) => Some(Instant { ns: t }),
                None => None,
            },
            None => {
                proof {
                    vstd::arithmetic::mul::lemma_mul_is_commutative(
                        ticks as int,
                        self.resolution.ns as int,
                    );
                }
                None
            },
        }
    }

    /// Subtracts from the summary, and clears, the `ticks` slices that
    /// follow the slice after `current`, in ring order.
    fn clear_slices(&self, current: usize, ticks: u64)
        requires
            self.wf(),
            current < self.spec_slices(),
    {
        let slices = self.histograms.len();
        let mut idx = index_after(current, 1, slices);
        let mut k: u64 = 0;
        while k < ticks
            invariant
                self.wf(),
                slices == self.spec_slices(),
                idx < slices,
            decreases ticks - k,
        {
            idx = index_after(idx, 1, slices);
            subtract_and_clear(&self.summary, &self.histograms[idx]);
            k = k + 1;
        }
    }
}

/// A new atomic histogram with the configuration of `h` and the values of
/// its counters as they are read.
fn copy_atomic(h: &AtomicHistogram) -> (r: AtomicHistogram)
    ensures
        r.spec_config() == h.spec_config(),
        r.spec_len() == h.spec_len(),
{
    broadcast use {
        crate::histogram::atomic::lemma_atomic_len,
        crate::histogram::atomic::lemma_atomic_config,
    };

    let mut buckets: Vec<core::sync::atomic::AtomicU64> = Vec::with_capacity(h.buckets.len());
    let mut i: usize = 0;
    while i < h.buckets.len()
        invariant
            i <= h.buckets@.len(),
            buckets@.len() == i,
        decreases h.buckets@.len() - i,
    {
        let v = h.buckets[i].load(Ordering::Relaxed);
        buckets.push(core::sync::atomic::AtomicU64::new(v));
        i = i + 1;
    }
    AtomicHistogram { config: h.config, buckets }
}

impl Clone for Heatmap {
    /// A heatmap with the same settings and the values of the counters as
    /// they are read, whose next tick is one resolution past the origin.
    fn clone(&self) -> (r: Self) {
        let mut histograms: Vec<AtomicHistogram> = Vec::with_capacity(self.histograms.len());
        let mut i: usize = 0;
        while i < self.histograms.len()
            invariant
                i <= self.histograms@.len(),
                histograms@.len() == i,
            decreases self.histograms@.len() - i,
        {
            histograms.push(copy_atomic(&self.histograms[i]));
            i = i + 1;
        }
        let tick_at = if self.tick_origin.ns <= u64::MAX - self.resolution.ns {
            Instant { ns: self.tick_origin.ns + self.resolution.ns }
        } else {
            self.tick_origin
        };
        Heatmap {
            span: self.span,
            resolution: self.resolution,
            start_ts: self.start_ts,
            tick_origin: self.tick_origin,
            summary: copy_atomic(&self.summary),
            histograms,
            tick_at: AtomicInstant::new(tick_at),
        }
    }
}

/// Subtracts each counter of `other` from the counter of `summary` at the
/// same position (wrapping), setting the counter of `other` to zero.
fn subtract_and_clear(summary: &AtomicHistogram, other: &AtomicHistogram)
    requires
        summary.wf(),
        other.wf(),
        summary.spec_config() == other.spec_config(),
{
    broadcast use crate::histogram::atomic::lemma_atomic_len;

    let n = other.buckets.len();
    let mut i: usize = 0;
    while i < n
        invariant
            i <= n,
            n == other.buckets@.len(),
            n == summary.buckets@.len(),
        decreases n - i,
    {
        let v = other.buckets[i].swap(0, Ordering::Relaxed);
        summary.buckets[i].fetch_sub(v, Ordering::Relaxed);
        i = i + 1;
    }
}

/// The number of slices is one past the span in resolutions, rounded up, so
/// a loop that stops once the slices reach past the span stays within it.
proof fn lemma_slice_count_bound(span: nat, res: nat, k: nat)
    requires
        res > 0,
        k * res < span + res,
    ensures
        k + 1 <= slice_count(span, res),
{
    let c = slice_count(span, res);
    vstd::arithmetic::div_mod::lemma_fundamental_div_mod((span + res + res - 1) as int, res as int);
    vstd::arithmetic::mul::lemma_mul_is_commutative(res as int, c as int);
    if k + 1 > c {
        vstd::arithmetic::mul::lemma_mul_inequality((c + 1) as int, (k + 1) as int, res as int);
        vstd::arithmetic::mul::lemma_mul_is_distributive_add_other_way(res as int, k as int, 1);
        vstd::arithmetic::mul::lemma_mul_is_distributive_add_other_way(res as int, c as int, 1);
    }
}

/// The loop stops at exactly the number of slices.
proof fn lemma_slice_count_exact(span: nat, res: nat, k: nat)
    requires
        res > 0,
        k * res >= span + res,
        k > 0 ==> (k - 1) * res < span + res,
    ensures
        k == slice_count(span, res),
{
    let c = slice_count(span, res);
    vstd::arithmetic::div_mod::lemma_fundamental_div_mod((span + res + res - 1) as int, res as int);
    vstd::arithmetic::mul::lemma_mul_is_commutative(res as int, c as int);
    if k > 0 {
        lemma_slice_count_bound(span, res, (k - 1) as nat);
    }
    if k < c {
        vstd::arithmetic::mul::lemma_mul_inequality((k + 1) as int, c as int, res as int);
        vstd::arithmetic::mul::lemma_mul_is_distributive_add_other_way(res as int, k as int, 1);
    }
}

/// An iterator across the active slices of a heatmap, oldest first.
pub struct Iter<'a> {
    inner: &'a Heatmap,
    index: usize,
    count: usize,
}

impl<'a> Iter<'a> {
    /// The heatmap that is iterated over.
    pub closed spec fn spec_heatmap(&self) -> &'a Heatmap {
        self.inner
    }

    /// The number of slices returned so far.
    pub closed spec fn spec_count(&self) -> nat {
        self.count as nat
    }

    /// The slice whose histogram is returned next.
    pub closed spec fn spec_position(&self) -> nat {
        self.index as nat
    }

    /// The heatmap is well formed and the position is one of its slices.
    pub closed spec fn wf(&self) -> bool {
        &&& self.inner.wf()
        &&& self.index < self.inner.spec_slices()
    }

    /// An iterator that starts at the oldest active slice: the one two to
    /// the right of the current slice once every slice is in use, and the
    /// first one before that.
    fn new(inner: &'a Heatmap) -> (r: Iter<'a>)
        requires
            inner.wf(),
        ensures
            r.wf(),
            r.spec_heatmap() == inner,
            r.spec_count() == 0,
    {
        let slices = inner.histograms.len();
        let tick_at = inner.tick_at.load(Ordering::Relaxed);
        let index = if inner.active_slices_at(tick_at) == slices - 1 {
            let current = inner.slice_idx(tick_at);
            if slices >= 2 {
                index_after(current, 2, slices)
            } else {
                current
            }
        } else {
            0
        };
        Iter { inner, index, count: 0 }
    }

    /// Returns the histogram of the next active slice, or `None` once as
    /// many slices as are active have been returned.
    pub fn next(&mut self) -> (r: Option<&'a AtomicHistogram>)
        requires
            old(self).wf(),
        ensures
            final(self).wf(),
            final(self).spec_heatmap() == old(self).spec_heatmap(),
            match r {
                Some(h) => {
                    let slices = old(self).spec_heatmap().spec_slices();
                    &&& *h == old(self).spec_heatmap().spec_histogram(
                        old(self).spec_position() as int,
                    )
                    &&& old(self).spec_count() + 1 < slices
                    &&& final(self).spec_count() == old(self).spec_count() + 1
                    &&& final(self).spec_position() == (old(self).spec_position() + 1) % slices
                },
                None => {
                    &&& final(self).spec_count() == old(self).spec_count()
                    &&& final(self).spec_position() == old(self).spec_position()
                },
            },
            old(self).spec_count() + 1 >= old(self).spec_heatmap().spec_slices() ==> r is None,
            r is Some ==> exists|t: Instant|
                old(self).spec_count() < #[trigger] old(self).spec_heatmap().spec_active_at(t),
            r is None ==> exists|t: Instant|
                old(self).spec_count() >= #[trigger] old(self).spec_heatmap().spec_active_at(t),
    {
        let active = self.inner.active_slices();
        let ghost t = choose|t: Instant| active == self.inner.spec_active_at(t);
        assert(active == old(self).spec_heatmap().spec_active_at(t));
        if self.count >= active {
            assert(old(self).spec_count() >= old(self).spec_heatmap().spec_active_at(t));
            None
        } else {
            let bucket = &self.inner.histograms[self.index];
            self.index = index_after(self.index, 1, self.inner.histograms.len());
            self.count = self.count + 1;
            Some(bucket)
        }
    }
}

} // verus!
