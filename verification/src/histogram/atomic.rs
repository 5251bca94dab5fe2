use vstd::prelude::*;
use core::sync::atomic::{AtomicU64, Ordering};
use crate::clocksource::precise::UnixInstant;
use crate::histogram::config::Config;
use crate::histogram::errors::Error;
use crate::histogram::standard::Histogram;

verus! {

broadcast use crate::histogram::standard::group_histogram_view;

/// A histogram that uses atomic 64bit counters for each bucket.
///
/// Unlike the non-atomic variant, it cannot be used directly to report
/// percentiles. Instead, a snapshot must be taken which captures the state of
/// the histogram at a point in time. The counters can change through a shared
/// reference, so nothing is known of the values that are read from them.
pub struct AtomicHistogram {
    pub(crate) config: Config,
    pub(crate) buckets: Vec<AtomicU64>,
}

/// The number of counters of an atomic histogram is the length of its
/// vector of counters.
pub(crate) broadcast proof fn lemma_atomic_len(h: AtomicHistogram)
    ensures
        #[trigger] h.spec_len() == h.buckets@.len(),
{
}

/// The configuration of an atomic histogram is its stored configuration.
pub(crate) broadcast proof fn lemma_atomic_config(h: AtomicHistogram)
    ensures
        #[trigger] h.spec_config() == h.config,
{
}

impl AtomicHistogram {
    /// The bucket configuration.
    pub closed spec fn spec_config(&self) -> Config {
        self.config
    }

    /// The number of counters.
    pub closed spec fn spec_len(&self) -> nat {
        self.buckets@.len()
    }

    /// The configuration is well formed and there is one counter per bucket.
    pub open spec fn wf(&self) -> bool {
        &&& self.spec_config().wf()
        &&& self.spec_len() == self.spec_config().spec_total_bins()
    }

    /// Construct a new atomic histogram from the provided parameters. See the
    /// documentation for [`crate::histogram::Config`] to understand their
    /// meaning.
    pub fn new(p: u8, n: u8) -> (r: Result<Self, Error>)
        requires
            crate::histogram::config::valid_params(0, p as nat, n as nat)
                ==> crate::histogram::config::params_fit(0, p as nat, n as nat),
        ensures
            match r {
                Ok(h) => {
                    &&& crate::histogram::config::valid_params(0, p as nat, n as nat)
                    &&& h.wf()
                    &&& h.spec_config().linear_power() == 0
                    &&& h.spec_config().spec_grouping_power() == p
                    &&& h.spec_config().spec_max_value_power() == n
                },
                Err(e) => {
                    ||| (n > 64 && e == Error::MaxPowerTooHigh)
                    ||| (n <= 64 && p >= n && e == Error::MaxPowerTooLow)
                },
            },
    {
        let config = Config::new(p, n)?;
        Ok(Self::with_config(&config))
    }

    /// Creates a new atomic histogram using a provided
    /// [`crate::histogram::Config`], with every counter at zero.
    pub fn with_config(config: &Config) -> (r: Self)
        requires
            config.wf(),
        ensures
            r.wf(),
            r.spec_config() == *config,
    {
        let total = config.total_bins();
        let mut buckets: Vec<AtomicU64> = Vec::new();
        while buckets.len() < total
            invariant
                buckets.len() <= total,
            decreases total - buckets.len(),
        {
            buckets.push(AtomicU64::new(0));
        }
        Self { config: *config, buckets }
    }

    /// Increment the bucket that contains the value by one. Returns
    /// `OutOfRange` if the value is larger than the largest storable value.
    pub fn increment(&self, value: u64) -> (r: Result<(), Error>)
        requires
            self.wf(),
        ensures
            r is Ok <==> value <= self.spec_config().spec_max(),
            r matches Err(e) ==> e == Error::OutOfRange,
    {
        self.add(value, 1)
    }

    /// Increment the bucket that contains the value by some count, wrapping
    /// on overflow. Returns `OutOfRange` if the value is larger than the
    /// largest storable value.
    pub fn add(&self, value: u64, count: u64) -> (r: Result<(), Error>)
        requires
            self.wf(),
        ensures
            r is Ok <==> value <= self.spec_config().spec_max(),
            r matches Err(e) ==> e == Error::OutOfRange,
    {
        let index = self.config.value_to_index(value)?;
        self.buckets[index].fetch_add(count, Ordering::Relaxed);
        Ok(())
    }

    /// Get access to the raw atomic counters.
    pub fn as_slice(&self) -> (r: &[AtomicU64])
        ensures
            r@.len() == self.spec_len(),
    {
        self.buckets.as_slice()
    }

    /// Drains the bucket values into a new `Histogram`, resetting each counter
    /// to zero.
    pub fn drain(&self) -> (r: Histogram)
        requires
            self.wf(),
        ensures
            r.wf(),
            r.spec_config() == self.spec_config(),
    {
        let mut buckets: Vec<u64> = Vec::new();
        let mut i: usize = 0;
        while i < self.buckets.len()
            invariant
                i <= self.buckets.len(),
                buckets.len() == i,
            decreases self.buckets.len() - i,
        {
            buckets.push(self.buckets[i].swap(0, Ordering::Relaxed));
            i = i + 1;
        }
        Histogram { config: self.config, start: UnixInstant::now(), buckets }
    }

    /// Read the bucket values into a new `Histogram`.
    pub fn load(&self) -> (r: Histogram)
        requires
            self.wf(),
        ensures
            r.wf(),
            r.spec_config() == self.spec_config(),
    {
        let mut buckets: Vec<u64> = Vec::new();
        let mut i: usize = 0;
        while i < self.buckets.len()
            invariant
                i <= self.buckets.len(),
                buckets.len() == i,
            decreases self.buckets.len() - i,
        {
            buckets.push(self.buckets[i].load(Ordering::Relaxed));
            i = i + 1;
        }
        Histogram { config: self.config, start: UnixInstant::now(), buckets }
    }

    /// Returns the bucket configuration of the histogram.
    pub fn config(&self) -> (r: Config)
        ensures
            r == self.spec_config(),
    {
        self.config
    }
}

} // verus!
