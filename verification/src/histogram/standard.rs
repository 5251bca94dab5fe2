use vstd::prelude::*;
use crate::clocksource::precise::UnixInstant;
use crate::histogram::bucket::Bucket;
use crate::histogram::config::Config;
use crate::histogram::errors::Error;
use crate::histogram::snapshot::Snapshot;
use crate::histogram::rank::{first_reaching, rank_index};

verus! {

broadcast use crate::histogram::bucket::group_bucket_view;

/// A histogram that uses plain 64bit counters for each bucket.
#[derive(Clone)]
pub struct Histogram {
    pub(crate) config: Config,
    pub(crate) start: UnixInstant,
    pub(crate) buckets: Vec<u64>,
}

/// The bucket counters of a histogram are its stored counters.
pub(crate) broadcast proof fn lemma_histogram_counts(h: Histogram)
    ensures
        #[trigger] h.counts() == h.buckets@,
{
}

/// The configuration of a histogram is its stored configuration.
pub(crate) broadcast proof fn lemma_histogram_config(h: Histogram)
    ensures
        #[trigger] h.spec_config() == h.config,
{
}

/// The start of a histogram is its stored start.
pub(crate) broadcast proof fn lemma_histogram_start(h: Histogram)
    ensures
        #[trigger] h.spec_start() == h.start,
{
}

/// The stored fields of a histogram are what its views show.
pub(crate) broadcast group group_histogram_view {
    lemma_histogram_counts,
    lemma_histogram_config,
    lemma_histogram_start,
}

/// The counters of two histograms can be added without overflow.
pub open spec fn sum_fits(a: Seq<u64>, b: Seq<u64>) -> bool {
    forall|i: int| 0 <= i < a.len() ==> a[i] + b[i] <= u64::MAX
}

/// The counters of `b` can be subtracted from those of `a` without underflow.
pub open spec fn difference_fits(a: Seq<u64>, b: Seq<u64>) -> bool {
    forall|i: int| 0 <= i < a.len() ==> a[i] >= b[i]
}

/// The counters `a[i] + b[i]`.
pub open spec fn counts_sum(a: Seq<u64>, b: Seq<u64>) -> Seq<u64> {
    Seq::new(a.len(), |i: int| (a[i] + b[i]) as u64)
}

/// The counters `a[i] - b[i]`.
pub open spec fn counts_difference(a: Seq<u64>, b: Seq<u64>) -> Seq<u64> {
    Seq::new(a.len(), |i: int| (a[i] - b[i]) as u64)
}

/// The counters `a[i] + b[i]`, wrapping on overflow.
pub open spec fn counts_wrapping_sum(a: Seq<u64>, b: Seq<u64>) -> Seq<u64> {
    Seq::new(a.len(), |i: int| a[i].wrapping_add(b[i]))
}

/// The counters `a[i] - b[i]`, wrapping on underflow.
pub open spec fn counts_wrapping_difference(a: Seq<u64>, b: Seq<u64>) -> Seq<u64> {
    Seq::new(a.len(), |i: int| a[i].wrapping_sub(b[i]))
}

/// Subtracting with wrapping undoes adding with wrapping: counters plus
/// others, minus those others, are the first counters again.
pub proof fn lemma_wrapping_sub_undoes_add(a: Seq<u64>, b: Seq<u64>)
    requires
        a.len() == b.len(),
    ensures
        counts_wrapping_difference(counts_wrapping_sum(a, b), b) == a,
{
    assert(counts_wrapping_difference(counts_wrapping_sum(a, b), b) =~= a);
}

/// Subtracting undoes adding when the sums fit: counters plus others,
/// minus those others, are the first counters again.
pub proof fn lemma_sub_undoes_add(a: Seq<u64>, b: Seq<u64>)
    requires
        a.len() == b.len(),
        sum_fits(a, b),
    ensures
        difference_fits(counts_sum(a, b), b),
        counts_difference(counts_sum(a, b), b) == a,
{
    assert(counts_difference(counts_sum(a, b), b) =~= a);
}

/// The bucket at index `i` of a configuration with the given count.
pub open spec fn bucket_at(config: Config, i: int, count: u64) -> Bucket {
    Bucket::spec_new(count, config.spec_lower(i as nat) as u64, config.spec_upper(i as nat) as u64)
}

impl Histogram {
    /// The bucket counters.
    pub closed spec fn counts(&self) -> Seq<u64> {
        self.buckets@
    }

    /// The bucket configuration.
    pub closed spec fn spec_config(&self) -> Config {
        self.config
    }

    /// The time at which the histogram began counting.
    pub closed spec fn spec_start(&self) -> UnixInstant {
        self.start
    }

    /// The configuration is well formed and there is one counter per bucket.
    pub open spec fn wf(&self) -> bool {
        &&& self.spec_config().wf()
        &&& self.counts().len() == self.spec_config().spec_total_bins()
    }

    /// Construct a new histogram from the provided parameters. See the
    /// documentation for [`crate::histogram::Config`] to understand their
    /// meaning.
    pub fn new(grouping_power: u8, max_value_power: u8) -> (r: Result<Self, Error>)
        requires
            crate::histogram::config::valid_params(0, grouping_power as nat, max_value_power as nat)
                ==> crate::histogram::config::params_fit(
                0,
                grouping_power as nat,
                max_value_power as nat,
            ),
        ensures
            match r {
                Ok(h) => {
                    &&& crate::histogram::config::valid_params(
                        0,
                        grouping_power as nat,
                        max_value_power as nat,
                    )
                    &&& h.wf()
                    &&& h.spec_config().linear_power() == 0
                    &&& h.spec_config().spec_grouping_power() == grouping_power
                    &&& h.spec_config().spec_max_value_power() == max_value_power
                    &&& h.counts() == Seq::new(h.counts().len(), |i: int| 0u64)
                },
                Err(e) => {
                    ||| (max_value_power > 64 && e == Error::MaxPowerTooHigh)
                    ||| (max_value_power <= 64 && grouping_power >= max_value_power && e
                        == Error::MaxPowerTooLow)
                },
            },
    {
        let config = Config::new(grouping_power, max_value_power)?;
        Ok(Self::with_config(&config))
    }

    /// Creates a new histogram using a provided [`crate::histogram::Config`],
    /// with every counter at zero.
    pub fn with_config(config: &Config) -> (r: Self)
        requires
            config.wf(),
        ensures
            r.wf(),
            r.spec_config() == *config,
            r.counts() == Seq::new(config.spec_total_bins(), |i: int| 0u64),
    {
        let total = config.total_bins();
        let mut buckets: Vec<u64> = Vec::new();
        while buckets.len() < total
            invariant
                buckets.len() <= total,
                forall|j: int| 0 <= j < buckets.len() ==> buckets[j] == 0,
            decreases total - buckets.len(),
        {
            buckets.push(0);
        }
        assert(buckets@ == Seq::new(config.spec_total_bins(), |i: int| 0u64));
        Self { config: *config, start: UnixInstant::now(), buckets }
    }

    /// Increment the counter for the bucket corresponding to the provided value
    /// by one.
    pub fn increment(&mut self, value: u64) -> (r: Result<(), Error>)
        requires
            old(self).wf(),
        ensures
            final(self).wf(),
            final(self).spec_config() == old(self).spec_config(),
            final(self).spec_start() == old(self).spec_start(),
            match r {
                Ok(()) => {
                    let i = old(self).spec_config().spec_index(value as nat) as int;
                    &&& value <= old(self).spec_config().spec_max()
                    &&& final(self).counts() == old(self).counts().update(
                        i,
                        old(self).counts()[i].wrapping_add(1),
                    )
                },
                Err(e) => {
                    &&& value > old(self).spec_config().spec_max()
                    &&& e == Error::OutOfRange
                    &&& final(self).counts() == old(self).counts()
                },
            },
    {
        self.add(value, 1)
    }

    /// Add some count to the counter for the bucket corresponding to the
    /// provided value. The counter wraps on overflow.
    pub fn add(&mut self, value: u64, count: u64) -> (r: Result<(), Error>)
        requires
            old(self).wf(),
        ensures
            final(self).wf(),
            final(self).spec_config() == old(self).spec_config(),
            final(self).spec_start() == old(self).spec_start(),
            match r {
                Ok(()) => {
                    let i = old(self).spec_config().spec_index(value as nat) as int;
                    &&& value <= old(self).spec_config().spec_max()
                    &&& final(self).counts() == old(self).counts().update(
                        i,
                        old(self).counts()[i].wrapping_add(count),
                    )
                },
                Err(e) => {
                    &&& value > old(self).spec_config().spec_max()
                    &&& e == Error::OutOfRange
                    &&& final(self).counts() == old(self).counts()
                },
            },
    {
        let index = self.config.value_to_index(value)?;
        let updated = self.buckets[index].wrapping_add(count);
        self.buckets.set(index, updated);
        Ok(())
    }

    /// Get a reference to the raw counters.
    pub fn as_slice(&self) -> (r: &[u64])
        ensures
            r@ == self.counts(),
    {
        self.buckets.as_slice()
    }

    /// Get a mutable reference to the raw counters.
    pub fn as_mut_slice(&mut self) -> (r: &mut [u64])
        ensures
            r@ == old(self).counts(),
            final(self).counts() == final(r)@,
            final(self).spec_config() == old(self).spec_config(),
            final(self).spec_start() == old(self).spec_start(),
    {
        self.buckets.as_mut_slice()
    }

    /// The total count for a percentile query: `Empty` if the histogram
    /// holds no observations, since no percentile of nothing exists.
    pub fn observed_total(&self) -> (r: Result<u128, Error>)
        requires
            self.wf(),
        ensures
            r == if counts_total(self.counts()) == 0 {
                Err::<u128, Error>(Error::Empty)
            } else {
                Ok::<u128, Error>(counts_total(self.counts()) as u128)
            },
    {
        let total = self.total_count();
        if total == 0 {
            Err(Error::Empty)
        } else {
            Ok(total)
        }
    }

    /// The sum of all counters, which cannot overflow a `u128` for a
    /// histogram that fits in memory.
    pub fn total_count(&self) -> (r: u128)
        requires
            self.wf(),
        ensures
            r == crate::histogram::standard::counts_total(self.counts()),
    {
        let mut total: u128 = 0;
        let mut i: usize = 0;
        proof {
            self.spec_config().lemma_wf();
        }
        while i < self.buckets.len()
            invariant
                i <= self.buckets.len(),
                self.buckets.len() <= u32::MAX,
                total == counts_total(self.buckets@.take(i as int)),
                total <= i * (u64::MAX as nat),
            decreases self.buckets.len() - i,
        {
            proof {
                assert(self.buckets@.take(i + 1).drop_last() == self.buckets@.take(i as int));
            }
            total = total + self.buckets[i] as u128;
            i = i + 1;
        }
        assert(self.buckets@.take(i as int) == self.buckets@);
        total
    }

    /// The bucket, with its count, at which the running total of the
    /// counters, in bucket order, reaches `needed`, or `None` if the total of
    /// all counters is smaller. This is the bucket of the percentile whose
    /// rank `ceil(p / 100 * total)` is `needed`.
    pub fn bucket_for_rank(&self, needed: u128) -> (r: Option<Bucket>)
        requires
            self.wf(),
        ensures
            ({
                let k = first_reaching(self.counts(), needed as nat);
                if k < self.counts().len() {
                    r == Some(bucket_at(self.spec_config(), k as int, self.counts()[k as int]))
                } else {
                    r is None
                }
            }),
    {
        let k = rank_index(self.buckets.as_slice(), needed);
        if k < self.buckets.len() {
            proof {
                self.spec_config().lemma_wf();
            }
            Some(
                Bucket {
                    count: self.buckets[k],
                    lower: self.config.index_to_lower_bound(k),
                    upper: self.config.index_to_upper_bound(k),
                },
            )
        } else {
            None
        }
    }

    /// Returns a snapshot of this histogram, covering the time from the start
    /// of the histogram until now.
    pub fn snapshot(&self) -> (r: Snapshot)
        requires
            self.wf(),
        ensures
            r.wf(),
            r.histogram().counts() == self.counts(),
            r.histogram().spec_config() == self.spec_config(),
            r.histogram().spec_start() == self.spec_start(),
    {
        let end = UnixInstant::now();
        Snapshot::from_parts(end, self.copy_of())
    }

    /// A histogram with the same configuration, start and counters.
    pub(crate) fn copy_of(&self) -> (r: Histogram)
        ensures
            r.counts() == self.counts(),
            r.spec_config() == self.spec_config(),
            r.spec_start() == self.spec_start(),
    {
        let mut buckets: Vec<u64> = Vec::new();
        let mut i: usize = 0;
        while i < self.buckets.len()
            invariant
                i <= self.buckets.len(),
                buckets@ == self.buckets@.take(i as int),
            decreases self.buckets.len() - i,
        {
            buckets.push(self.buckets[i]);
            i = i + 1;
        }
        assert(self.buckets@.take(i as int) == self.buckets@);
        Histogram { config: self.config, start: self.start, buckets }
    }

    /// Adds the other histogram to this histogram and returns the result as a
    /// new histogram.
    ///
    /// An error is returned if the two histograms have incompatible parameters
    /// or if there is an overflow.
    pub(crate) fn checked_add(&self, other: &Histogram) -> (r: Result<Histogram, Error>)
        requires
            self.wf(),
            other.wf(),
        ensures
            match r {
                Ok(h) => {
                    &&& self.spec_config() == other.spec_config()
                    &&& sum_fits(self.counts(), other.counts())
                    &&& h.wf()
                    &&& h.spec_config() == self.spec_config()
                    &&& h.spec_start() == self.spec_start()
                    &&& h.counts() == counts_sum(self.counts(), other.counts())
                },
                Err(e) => {
                    ||| (self.spec_config() != other.spec_config() && e
                        == Error::IncompatibleParameters)
                    ||| (self.spec_config() == other.spec_config() && !sum_fits(
                        self.counts(),
                        other.counts(),
                    ) && e == Error::Overflow)
                },
            },
    {
        if self.config != other.config {
            return Err(Error::IncompatibleParameters);
        }
        let mut buckets: Vec<u64> = Vec::new();
        let mut i: usize = 0;
        while i < self.buckets.len()
            invariant
                i <= self.buckets.len(),
                self.spec_config() == other.spec_config(),
                self.buckets.len() == other.buckets.len(),
                buckets.len() == i,
                forall|j: int| 0 <= j < i ==> buckets[j] == self.buckets[j] + other.buckets[j],
            decreases self.buckets.len() - i,
        {
            match self.buckets[i].checked_add(other.buckets[i]) {
                Some(v) => buckets.push(v),
                None => {
                    assert(self.counts()[i as int] + other.counts()[i as int] > u64::MAX);
                    return Err(Error::Overflow);
                },
            }
            i = i + 1;
        }
        assert(buckets@ == counts_sum(self.buckets@, other.buckets@));
        assert(sum_fits(self.counts(), other.counts())) by {
            assert forall|j: int| 0 <= j < self.counts().len() implies self.counts()[j]
                + other.counts()[j] <= u64::MAX by {
                assert(buckets[j] == self.buckets[j] + other.buckets[j]);
            }
        }
        Ok(Histogram { config: self.config, start: self.start, buckets })
    }

    /// Adds the other histogram to this histogram and returns the result as a
    /// new histogram. Counters wrap on overflow.
    ///
    /// An error is returned if the two histograms have incompatible parameters.
    pub(crate) fn wrapping_add(&self, other: &Histogram) -> (r: Result<Histogram, Error>)
        requires
            self.wf(),
            other.wf(),
        ensures
            match r {
                Ok(h) => {
                    &&& self.spec_config() == other.spec_config()
                    &&& h.wf()
                    &&& h.spec_config() == self.spec_config()
                    &&& h.spec_start() == self.spec_start()
                    &&& h.counts() == counts_wrapping_sum(self.counts(), other.counts())
                },
                Err(e) => self.spec_config() != other.spec_config() && e
                    == Error::IncompatibleParameters,
            },
    {
        if self.config != other.config {
            return Err(Error::IncompatibleParameters);
        }
        let mut buckets: Vec<u64> = Vec::new();
        let mut i: usize = 0;
        while i < self.buckets.len()
            invariant
                i <= self.buckets.len(),
                self.spec_config() == other.spec_config(),
                self.buckets.len() == other.buckets.len(),
                buckets.len() == i,
                forall|j: int|
                    0 <= j < i ==> buckets[j] == self.buckets[j].wrapping_add(other.buckets[j]),
            decreases self.buckets.len() - i,
        {
            buckets.push(self.buckets[i].wrapping_add(other.buckets[i]));
            i = i + 1;
        }
        assert(buckets@ == counts_wrapping_sum(self.buckets@, other.buckets@));
        Ok(Histogram { config: self.config, start: self.start, buckets })
    }

    /// Subtracts the other histogram from this histogram and returns the result
    /// as a new histogram.
    ///
    /// An error is returned if the two histograms have incompatible parameters
    /// or if there is an overflow.
    pub(crate) fn checked_sub(&self, other: &Histogram) -> (r: Result<Histogram, Error>)
        requires
            self.wf(),
            other.wf(),
        ensures
            match r {
                Ok(h) => {
                    &&& self.spec_config() == other.spec_config()
                    &&& difference_fits(self.counts(), other.counts())
                    &&& h.wf()
                    &&& h.spec_config() == self.spec_config()
                    &&& h.spec_start() == self.spec_start()
                    &&& h.counts() == counts_difference(self.counts(), other.counts())
                },
                Err(e) => {
                    ||| (self.spec_config() != other.spec_config() && e
                        == Error::IncompatibleParameters)
                    ||| (self.spec_config() == other.spec_config() && !difference_fits(
                        self.counts(),
                        other.counts(),
                    ) && e == Error::Overflow)
                },
            },
    {
        if self.config != other.config {
            return Err(Error::IncompatibleParameters);
        }
        let mut buckets: Vec<u64> = Vec::new();
        let mut i: usize = 0;
        while i < self.buckets.len()
            invariant
                i <= self.buckets.len(),
                self.spec_config() == other.spec_config(),
                self.buckets.len() == other.buckets.len(),
                buckets.len() == i,
                forall|j: int| 0 <= j < i ==> buckets[j] == self.buckets[j] - other.buckets[j],
                forall|j: int| 0 <= j < i ==> self.buckets[j] >= other.buckets[j],
            decreases self.buckets.len() - i,
        {
            match self.buckets[i].checked_sub(other.buckets[i]) {
                Some(v) => buckets.push(v),
                None => {
                    assert(self.counts()[i as int] < other.counts()[i as int]);
                    return Err(Error::Overflow);
                },
            }
            i = i + 1;
        }
        assert(buckets@ == counts_difference(self.buckets@, other.buckets@));
        Ok(Histogram { config: self.config, start: self.start, buckets })
    }

    /// Subtracts the other histogram from this histogram and returns the result
    /// as a new histogram. Counters wrap on underflow.
    ///
    /// An error is returned if the two histograms have incompatible parameters.
    pub(crate) fn wrapping_sub(&self, other: &Histogram) -> (r: Result<Histogram, Error>)
        requires
            self.wf(),
            other.wf(),
        ensures
            match r {
                Ok(h) => {
                    &&& self.spec_config() == other.spec_config()
                    &&& h.wf()
                    &&& h.spec_config() == self.spec_config()
                    &&& h.spec_start() == self.spec_start()
                    &&& h.counts() == counts_wrapping_difference(self.counts(), other.counts())
                },
                Err(e) => self.spec_config() != other.spec_config() && e
                    == Error::IncompatibleParameters,
            },
    {
        if self.config != other.config {
            return Err(Error::IncompatibleParameters);
        }
        let mut buckets: Vec<u64> = Vec::new();
        let mut i: usize = 0;
        while i < self.buckets.len()
            invariant
                i <= self.buckets.len(),
                self.spec_config() == other.spec_config(),
                self.buckets.len() == other.buckets.len(),
                buckets.len() == i,
                forall|j: int|
                    0 <= j < i ==> buckets[j] == self.buckets[j].wrapping_sub(other.buckets[j]),
            decreases self.buckets.len() - i,
        {
            buckets.push(self.buckets[i].wrapping_sub(other.buckets[i]));
            i = i + 1;
        }
        assert(buckets@ == counts_wrapping_difference(self.buckets@, other.buckets@));
        Ok(Histogram { config: self.config, start: self.start, buckets })
    }

    /// Returns the bucket configuration of the histogram.
    pub fn config(&self) -> (r: Config)
        ensures
            r == self.spec_config(),
    {
        self.config
    }

    /// An iterator across the histogram buckets, from the lowest to the
    /// highest.
    pub fn iter(&self) -> (r: Iter<'_>)
        requires
            self.wf(),
        ensures
            r.spec_index() == 0,
            r.spec_histogram() == *self,
    {
        Iter { index: 0, histogram: self }
    }
}

/// The sum of a sequence of counters.
pub open spec fn counts_total(s: Seq<u64>) -> nat
    decreases s.len(),
{
    if s.len() == 0 {
        0
    } else {
        counts_total(s.drop_last()) + s.last() as nat
    }
}

/// An iterator across the histogram buckets.
pub struct Iter<'a> {
    index: usize,
    histogram: &'a Histogram,
}

impl<'a> Iter<'a> {
    /// The index of the next bucket.
    pub closed spec fn spec_index(&self) -> nat {
        self.index as nat
    }

    /// The histogram that is iterated over.
    pub closed spec fn spec_histogram(&self) -> Histogram {
        *self.histogram
    }

    /// Returns the next bucket with its count and range, or `None` once all
    /// buckets have been returned.
    pub fn next(&mut self) -> (r: Option<Bucket>)
        requires
            old(self).spec_histogram().wf(),
        ensures
            final(self).spec_histogram() == old(self).spec_histogram(),
            ({
                let h = old(self).spec_histogram();
                let i = old(self).spec_index();
                if i < h.counts().len() {
                    &&& r == Some(bucket_at(h.spec_config(), i as int, h.counts()[i as int]))
                    &&& final(self).spec_index() == i + 1
                } else {
                    &&& r is None
                    &&& final(self).spec_index() == i
                }
            }),
    {
        if self.index >= self.histogram.buckets.len() {
            return None;
        }
        proof {
            self.histogram.config.lemma_wf();
        }
        let bucket = Bucket {
            count: self.histogram.buckets[self.index],
            lower: self.histogram.config.index_to_lower_bound(self.index),
            upper: self.histogram.config.index_to_upper_bound(self.index),
        };
        self.index = self.index + 1;
        Some(bucket)
    }
}

} // verus!
