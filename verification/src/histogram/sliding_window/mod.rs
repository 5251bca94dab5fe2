//! Sliding window histograms which retain samples within a sliding window of
//! time.
//!
//! These types are useful when you want to report on the behavior over some
//! recent time window. For instance, reporting on latency percentiles for the
//! past minute in a running service.
//!
//! Internally, these types are implemented as ring buffers of free-running
//! histograms. Each position in the ring buffer holds a snapshot of the live
//! free-running histogram. Time moves forward on both read and write
//! operations in snapshot length intervals. The sliding window includes some
//! number of slices each with the same duration.
//!
//! Older increments age-out as their positions in the ring buffer are
//! replaced with new snapshots.
//!
//! The monotonic clock is read by the caller: the operations that move the
//! window forward take the current `Instant` as an argument.

pub mod atomic;
pub mod standard;

pub use standard::Histogram;

use vstd::prelude::*;
use crate::clocksource::precise::{Duration, Instant, UnixInstant};
use crate::histogram::config::{Config, valid_params, params_fit};
use crate::histogram::errors::Error;

verus! {

broadcast use crate::clocksource::group_time_views;

/// Common components of a sliding window histogram.
#[derive(Clone, Copy)]
pub struct Common {
    interval: Duration,
    span: Duration,
    started: UnixInstant,
    tick_origin: Instant,
    params: (u8, u8, u8),
}

/// The slice of the ring buffer that holds the instant `instant`, for a
/// window that ends at `tick_at`, or `None` if the instant lies before the
/// start of the window `tick_at - span`, after its end, or before the origin
/// of the ticks.
pub open spec fn window_slot(common: Common, tick_at: nat, instant: nat) -> Option<nat> {
    if instant + common.spec_span()@ < tick_at || instant > tick_at || instant
        < common.spec_tick_origin()@ {
        None
    } else {
        Some(slot_of(common, instant))
    }
}

/// The slice of the ring buffer that an instant at or after the origin of
/// the ticks falls in: the whole intervals since the origin, modulo the
/// number of snapshots.
pub open spec fn slot_of(common: Common, instant: nat) -> nat {
    (((instant - common.spec_tick_origin()@) as nat) / (common.spec_interval()@ as nat))
        % common.spec_num_slices()
}

/// What looking up the slice of an instant gives, for a window that ends at
/// `tick_at`: the slice, or `OutOfSlidingWindow` outside of the window.
pub open spec fn window_index(common: Common, tick_at: nat, instant: nat) -> Result<usize, Error> {
    match window_slot(common, tick_at, instant) {
        Some(i) => Ok(i as usize),
        None => Err(Error::OutOfSlidingWindow),
    }
}

/// The next tick once the window has moved for an instant: the first tick
/// past the instant, a whole number of intervals after `tick_at`, when the
/// instant is at or past `tick_at` and that tick is a representable instant;
/// else `tick_at` itself.
pub open spec fn tick_after(tick_at: nat, interval: nat, instant: nat) -> nat {
    if instant < tick_at {
        tick_at
    } else {
        let t = tick_at + (((instant - tick_at) as nat) / interval + 1) * interval;
        if t <= u64::MAX {
            t
        } else {
            tick_at
        }
    }
}

/// What recording a value at an instant returns, once the window ends at
/// `tick_at`: `OutOfSlidingWindow` if the instant is earlier than the start
/// of the window, else `OutOfRange` if the value cannot be stored.
pub open spec fn add_result(common: Common, tick_at: nat, instant: nat, value: u64) -> Result<
    (),
    Error,
> {
    if instant + common.spec_span()@ < tick_at {
        Err(Error::OutOfSlidingWindow)
    } else if value > common.spec_config().spec_max() {
        Err(Error::OutOfRange)
    } else {
        Ok(())
    }
}

/// The window never moves back; when it moves, the instant falls in its last
/// interval; and it always moves past an instant that is at least one
/// interval from the end of the clock.
pub proof fn lemma_tick_after(tick_at: nat, interval: nat, instant: nat)
    requires
        interval > 0,
        tick_at <= u64::MAX,
    ensures
        tick_after(tick_at, interval, instant) >= tick_at,
        tick_after(tick_at, interval, instant) <= u64::MAX,
        tick_after(tick_at, interval, instant) != tick_at ==> tick_after(tick_at, interval, instant)
            - interval <= instant < tick_after(tick_at, interval, instant),
        instant + interval <= u64::MAX ==> instant < tick_after(tick_at, interval, instant),
{
    if instant >= tick_at {
        let d = (instant - tick_at) as nat;
        let q = d / interval;
        vstd::arithmetic::div_mod::lemma_fundamental_div_mod(d as int, interval as int);
        vstd::arithmetic::mul::lemma_mul_is_distributive_add_other_way(interval as int, q as int, 1);
        vstd::arithmetic::mul::lemma_mul_is_commutative(interval as int, (q + 1) as int);
        vstd::arithmetic::mul::lemma_mul_is_commutative(interval as int, q as int);
    }
}

/// A window of `slices` intervals keeps one snapshot per slice, plus one.
pub proof fn lemma_num_slices(c: Common, slices: nat)
    requires
        c.spec_interval()@ > 0,
        c.spec_span()@ == c.spec_interval()@ * slices,
    ensures
        c.spec_num_slices() == slices + 1,
{
    vstd::arithmetic::div_mod::lemma_div_multiples_vanish(slices as int, c.spec_interval()@ as int);
    vstd::arithmetic::mul::lemma_mul_is_commutative(slices as int, c.spec_interval()@ as int);
}

impl Common {
    /// The duration of each slice.
    pub closed spec fn spec_interval(&self) -> Duration {
        self.interval
    }

    /// The duration of the whole window.
    pub closed spec fn spec_span(&self) -> Duration {
        self.span
    }

    /// The wall clock time at which the histogram started.
    pub closed spec fn spec_started(&self) -> UnixInstant {
        self.started
    }

    /// The monotonic clock reading at which the histogram started.
    pub closed spec fn spec_tick_origin(&self) -> Instant {
        self.tick_origin
    }

    /// The parameters `a`, `b` and `n` of the histograms.
    pub closed spec fn spec_params(&self) -> (u8, u8, u8) {
        self.params
    }

    /// The number of snapshots in the ring buffer.
    pub open spec fn spec_num_slices(&self) -> nat {
        1 + (self.spec_span()@ as nat) / (self.spec_interval()@ as nat)
    }

    /// The configuration of the histograms.
    pub open spec fn spec_config(&self) -> Config {
        Config::spec_of(
            self.spec_params().0 as nat,
            self.spec_params().1 as nat,
            self.spec_params().2 as nat,
        )
    }

    /// The interval is at least a microsecond, the number of slices fits a
    /// `usize`, the parameters describe a histogram, and the end of the
    /// first window is a representable instant.
    pub open spec fn wf(&self) -> bool {
        let p = self.spec_params();
        &&& self.spec_interval()@ >= 1000
        &&& self.spec_num_slices() <= usize::MAX
        &&& valid_params(p.0 as nat, p.1 as nat, p.2 as nat)
        &&& params_fit(p.0 as nat, p.1 as nat, p.2 as nat)
        &&& self.spec_tick_origin()@ + self.spec_span()@ <= u64::MAX
    }

    /// Create a new struct containing common components of a sliding window
    /// histogram, whose first window ends at `now`, the current reading of
    /// the monotonic clock. The start is read from the system clock.
    ///
    /// Returns `MaxPowerTooHigh` or `MaxPowerTooLow` as `Config` does for
    /// parameters that do not describe a histogram.
    pub fn new(a: u8, b: u8, n: u8, interval: Duration, slices: usize, now: Instant) -> (r: Result<
        Self,
        Error,
    >)
        requires
            interval@ >= 1000,
            slices < usize::MAX,
            interval@ * slices <= u64::MAX,
            now@ >= interval@ * slices,
            valid_params(a as nat, b as nat, n as nat) ==> params_fit(a as nat, b as nat, n as nat),
        ensures
            match r {
                Ok(c) => {
                    &&& valid_params(a as nat, b as nat, n as nat)
                    &&& c.wf()
                    &&& c.spec_interval() == interval
                    &&& c.spec_span()@ == interval@ * slices
                    &&& c.spec_num_slices() == slices + 1
                    &&& c.spec_tick_origin()@ == now@ - interval@ * slices
                    &&& c.spec_params() == (a, b, n)
                },
                Err(e) => {
                    ||| (n > 64 && e == Error::MaxPowerTooHigh)
                    ||| (n <= 64 && a + b >= n && e == Error::MaxPowerTooLow)
                },
            },
    {
        let started = UnixInstant::now();
        let span = Duration::from_nanos(interval.as_nanos() * (slices as u64));
        // used to validate the other parameters
        match Config::with_linear_power(a, b, n) {
            Ok(_) => {},
            Err(e) => return Err(e),
        }
        let tick_origin = Instant { ns: now.ns - span.ns };
        proof {
            vstd::arithmetic::div_mod::lemma_div_multiples_vanish(slices as int, interval@ as int);
            vstd::arithmetic::mul::lemma_mul_is_commutative(slices as int, interval@ as int);
        }
        Ok(Self { interval, span, started, tick_origin, params: (a, b, n) })
    }

    /// The number of snapshots to represent the sliding window.
    pub fn num_slices(&self) -> (r: usize)
        requires
            self.wf(),
        ensures
            r == self.spec_num_slices(),
    {
        1 + (self.span.as_nanos() / self.interval.as_nanos()) as usize
    }

    /// The instant the histogram began.
    pub fn tick_origin(&self) -> (r: Instant)
        ensures
            r == self.spec_tick_origin(),
    {
        self.tick_origin
    }

    /// The interval between snapshots.
    pub fn interval(&self) -> (r: Duration)
        ensures
            r == self.spec_interval(),
    {
        self.interval
    }

    /// The total duration for the sliding window.
    pub fn span(&self) -> (r: Duration)
        ensures
            r == self.spec_span(),
    {
        self.span
    }

    /// The `a`, `b`, and `n` parameters for the histograms.
    pub fn params(&self) -> (r: (u8, u8, u8))
        ensures
            r == self.spec_params(),
    {
        self.params
    }

    /// The configuration of the histograms.
    pub fn config(&self) -> (r: Config)
        requires
            self.wf(),
        ensures
            r == self.spec_config(),
            r.wf(),
    {
        match Config::with_linear_power(self.params.0, self.params.1, self.params.2) {
            Ok(c) => {
                proof {
                    Config::lemma_spec_of(c);
                }
                c
            },
            Err(_) => unreached(),
        }
    }

    /// The slice of the ring buffer that an instant at or after the origin
    /// of the ticks falls in.
    pub(crate) fn slot(&self, instant: Instant) -> (r: usize)
        requires
            self.wf(),
            instant@ >= self.spec_tick_origin()@,
        ensures
            r == slot_of(*self, instant@ as nat),
            r < self.spec_num_slices(),
    {
        let ticks = (instant.ns - self.tick_origin.ns) / self.interval.ns;
        let slices = self.num_slices();
        (ticks % (slices as u64)) as usize
    }

    /// The slice of the ring buffer for an instant, for a window that ends
    /// at `tick_at`. Returns `OutOfSlidingWindow` if the instant lies before
    /// the start of the window, after its end, or before the origin of the
    /// ticks.
    pub fn index_at(&self, tick_at: Instant, instant: Instant) -> (r: Result<usize, Error>)
        requires
            self.wf(),
        ensures
            match window_slot(*self, tick_at@ as nat, instant@ as nat) {
                Some(i) => r == Ok::<usize, Error>(i as usize) && i < self.spec_num_slices(),
                None => r == Err::<usize, Error>(Error::OutOfSlidingWindow),
            },
    {
        // the start of the window is `tick_at - span`, which is before every
        // instant when it would be negative
        if tick_at.ns >= self.span.ns && instant.ns < tick_at.ns - self.span.ns {
            return Err(Error::OutOfSlidingWindow);
        }
        if instant.ns > tick_at.ns {
            return Err(Error::OutOfSlidingWindow);
        }
        if instant.ns < self.tick_origin.ns {
            return Err(Error::OutOfSlidingWindow);
        }
        Ok(self.slot(instant))
    }
}

/// A builder that can be used to construct a sliding window histogram.
///
/// By using the `Builder` you can specify a start instant for the histogram.
pub struct Builder {
    common: Common,
}

impl Builder {
    /// The common components that the histogram will be built from.
    pub closed spec fn spec_common(&self) -> Common {
        self.common
    }

    /// Create a new builder for constructing a sliding window histogram,
    /// whose first window ends at `now`, the current reading of the
    /// monotonic clock.
    ///
    /// # Parameters:
    /// * `a` sets bin width in the linear portion, the bin width is `2^a`
    /// * `b` sets the number of divisions in the logarithmic portion to `2^b`.
    /// * `n` sets the max value as `2^n - 1`.
    /// * `interval` is the duration of each discrete time slice
    /// * `slices` is the number of discrete time slices
    ///
    /// # Constraints:
    /// * `n` must be less than or equal to 64
    /// * `n` must be greater than `a + b`
    /// * `interval` must be at least 1 microsecond
    pub fn new(a: u8, b: u8, n: u8, interval: Duration, slices: usize, now: Instant) -> (r: Result<
        Self,
        Error,
    >)
        requires
            interval@ >= 1000,
            slices < usize::MAX,
            interval@ * slices <= u64::MAX,
            now@ >= interval@ * slices,
            valid_params(a as nat, b as nat, n as nat) ==> params_fit(a as nat, b as nat, n as nat),
        ensures
            match r {
                Ok(builder) => {
                    &&& valid_params(a as nat, b as nat, n as nat)
                    &&& builder.spec_common().wf()
                    &&& builder.spec_common().spec_interval() == interval
                    &&& builder.spec_common().spec_span()@ == interval@ * slices
                    &&& builder.spec_common().spec_tick_origin()@ == now@ - interval@ * slices
                    &&& builder.spec_common().spec_params() == (a, b, n)
                },
                Err(e) => {
                    ||| (n > 64 && e == Error::MaxPowerTooHigh)
                    ||| (n <= 64 && a + b >= n && e == Error::MaxPowerTooLow)
                },
            },
    {
        match Common::new(a, b, n, interval, slices, now) {
            Ok(common) => Ok(Self { common }),
            Err(e) => Err(e),
        }
    }

    /// Specify the start time for the histogram as a `UnixInstant`: the
    /// start and the origin of the ticks both move by the distance from the
    /// current start to `start`.
    pub fn start_unix(self, start: UnixInstant) -> (r: Self)
        requires
            self.spec_common().wf(),
            self.spec_common().spec_tick_origin()@ + start@ >= self.spec_common().spec_started()@,
            self.spec_common().spec_tick_origin()@ + start@ - self.spec_common().spec_started()@
                + self.spec_common().spec_span()@ <= u64::MAX,
        ensures
            r.spec_common().wf(),
            r.spec_common().spec_started() == start,
            r.spec_common().spec_tick_origin()@ == self.spec_common().spec_tick_origin()@ + start@
                - self.spec_common().spec_started()@,
            r.spec_common().spec_interval() == self.spec_common().spec_interval(),
            r.spec_common().spec_span() == self.spec_common().spec_span(),
            r.spec_common().spec_params() == self.spec_common().spec_params(),
    {
        let mut common = self.common;
        if common.started.ns < start.ns {
            let delta = start.ns - common.started.ns;
            common.started = UnixInstant { ns: common.started.ns + delta };
            common.tick_origin = Instant { ns: common.tick_origin.ns + delta };
        } else {
            let delta = common.started.ns - start.ns;
            common.started = UnixInstant { ns: common.started.ns - delta };
            common.tick_origin = Instant { ns: common.tick_origin.ns - delta };
        }
        Self { common }
    }

    /// Specify the start time for the histogram as an `Instant`: the start
    /// and the origin of the ticks both move by the distance from the current
    /// origin to `start`.
    pub fn start_instant(self, start: Instant) -> (r: Self)
        requires
            self.spec_common().wf(),
            self.spec_common().spec_started()@ + start@ >= self.spec_common().spec_tick_origin()@,
            self.spec_common().spec_started()@ + start@ - self.spec_common().spec_tick_origin()@
                <= u64::MAX,
            start@ + self.spec_common().spec_span()@ <= u64::MAX,
        ensures
            r.spec_common().wf(),
            r.spec_common().spec_tick_origin() == start,
            r.spec_common().spec_started()@ == self.spec_common().spec_started()@ + start@
                - self.spec_common().spec_tick_origin()@,
            r.spec_common().spec_interval() == self.spec_common().spec_interval(),
            r.spec_common().spec_span() == self.spec_common().spec_span(),
            r.spec_common().spec_params() == self.spec_common().spec_params(),
    {
        let mut common = self.common;
        if common.tick_origin.ns < start.ns {
            let delta = start.ns - common.tick_origin.ns;
            common.started = UnixInstant { ns: common.started.ns + delta };
            common.tick_origin = Instant { ns: common.tick_origin.ns + delta };
        } else {
            let delta = common.tick_origin.ns - start.ns;
            common.started = UnixInstant { ns: common.started.ns - delta };
            common.tick_origin = Instant { ns: common.tick_origin.ns - delta };
        }
        Self { common }
    }

    /// Consume the builder and produce a sliding window histogram that uses
    /// atomic operations.
    pub fn atomic(self) -> (r: Result<atomic::Histogram, Error>)
        requires
            self.spec_common().wf(),
        ensures
            r matches Ok(h) && h.wf() && h.spec_common() == self.spec_common(),
    {
        atomic::Histogram::from_common(self.common)
    }

    /// Consume the builder and produce a sliding window histogram.
    pub fn standard(self) -> (r: Result<Histogram, Error>)
        requires
            self.spec_common().wf(),
        ensures
            r matches Ok(h) && h.wf() && h.spec_common() == self.spec_common()
                && h.spec_tick_at()@ == self.spec_common().spec_tick_origin()@
                + self.spec_common().spec_span()@,
    {
        Histogram::from_common(self.common)
    }
}

} // verus!
