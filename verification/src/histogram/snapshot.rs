use vstd::prelude::*;
use crate::clocksource::precise::UnixInstant;
use crate::histogram::bucket::Bucket;
use crate::histogram::config::Config;
use crate::histogram::errors::Error;
use crate::histogram::standard::{
    Histogram, Iter as HistogramIter, counts_difference, counts_sum, counts_wrapping_difference,
    counts_wrapping_sum, difference_fits, sum_fits,
};

verus! {

broadcast use {
    crate::histogram::standard::group_histogram_view,
    crate::clocksource::precise::unix_instant::lemma_view_unix_instant,
};

/// A snapshot of a histogram across a time range: from the start of the
/// histogram until `end`.
pub struct Snapshot {
    pub(crate) end: UnixInstant,
    pub(crate) histogram: Histogram,
}

impl Snapshot {
    /// The end of the covered time range.
    pub closed spec fn spec_end(&self) -> UnixInstant {
        self.end
    }

    /// The histogram of the snapshot; its start is the start of the covered
    /// time range.
    pub closed spec fn histogram(&self) -> Histogram {
        self.histogram
    }

    /// The histogram of the snapshot is well formed.
    pub open spec fn wf(&self) -> bool {
        self.histogram().wf()
    }

    /// The snapshot of `histogram` until `end`.
    pub(crate) fn from_parts(end: UnixInstant, histogram: Histogram) -> (r: Snapshot)
        ensures
            r.spec_end() == end,
            r.histogram() == histogram,
    {
        Snapshot { end, histogram }
    }

    /// Return the time range of the snapshot.
    pub fn range(&self) -> (r: core::ops::Range<UnixInstant>)
        ensures
            r.start == self.histogram().spec_start(),
            r.end == self.spec_end(),
    {
        self.histogram.start..self.end
    }

    /// Merges two snapshots which cover the same time range.
    ///
    /// An error is raised on overflow.
    pub fn checked_merge(&self, rhs: &Self) -> (r: Result<Self, Error>)
        requires
            self.wf(),
            rhs.wf(),
        ensures
            match r {
                Ok(s) => {
                    &&& self.histogram().spec_start() == rhs.histogram().spec_start()
                    &&& self.spec_end() == rhs.spec_end()
                    &&& self.histogram().spec_config() == rhs.histogram().spec_config()
                    &&& sum_fits(self.histogram().counts(), rhs.histogram().counts())
                    &&& s.wf()
                    &&& s.spec_end() == rhs.spec_end()
                    &&& s.histogram().spec_start() == self.histogram().spec_start()
                    &&& s.histogram().spec_config() == self.histogram().spec_config()
                    &&& s.histogram().counts() == counts_sum(
                        self.histogram().counts(),
                        rhs.histogram().counts(),
                    )
                },
                Err(e) => {
                    ||| ((self.histogram().spec_start() != rhs.histogram().spec_start()
                        || self.spec_end() != rhs.spec_end()) && e == Error::IncompatibleTimeRange)
                    ||| (self.histogram().spec_start() == rhs.histogram().spec_start()
                        && self.spec_end() == rhs.spec_end() && self.histogram().spec_config()
                        != rhs.histogram().spec_config() && e == Error::IncompatibleParameters)
                    ||| (self.histogram().spec_start() == rhs.histogram().spec_start()
                        && self.spec_end() == rhs.spec_end() && self.histogram().spec_config()
                        == rhs.histogram().spec_config() && !sum_fits(
                        self.histogram().counts(),
                        rhs.histogram().counts(),
                    ) && e == Error::Overflow)
                },
            },
    {
        if self.histogram.start != rhs.histogram.start || self.end != rhs.end {
            return Err(Error::IncompatibleTimeRange);
        }
        let histogram = self.histogram.checked_add(&rhs.histogram)?;
        Ok(Self { end: rhs.end, histogram })
    }

    /// Appends the provided snapshot onto this snapshot, extending the covered
    /// time range and combining the bucket counts.
    ///
    /// An error is raised on overflow.
    pub fn checked_add(&self, rhs: &Self) -> (r: Result<Self, Error>)
        requires
            self.wf(),
            rhs.wf(),
        ensures
            match r {
                Ok(s) => {
                    &&& self.spec_end() == rhs.histogram().spec_start()
                    &&& self.histogram().spec_config() == rhs.histogram().spec_config()
                    &&& sum_fits(self.histogram().counts(), rhs.histogram().counts())
                    &&& s.wf()
                    &&& s.spec_end() == rhs.spec_end()
                    &&& s.histogram().spec_start() == self.histogram().spec_start()
                    &&& s.histogram().spec_config() == self.histogram().spec_config()
                    &&& s.histogram().counts() == counts_sum(
                        self.histogram().counts(),
                        rhs.histogram().counts(),
                    )
                },
                Err(e) => {
                    ||| (self.spec_end() != rhs.histogram().spec_start() && e
                        == Error::IncompatibleTimeRange)
                    ||| (self.spec_end() == rhs.histogram().spec_start()
                        && self.histogram().spec_config() != rhs.histogram().spec_config() && e
                        == Error::IncompatibleParameters)
                    ||| (self.spec_end() == rhs.histogram().spec_start()
                        && self.histogram().spec_config() == rhs.histogram().spec_config()
                        && !sum_fits(self.histogram().counts(), rhs.histogram().counts()) && e
                        == Error::Overflow)
                },
            },
    {
        if self.end != rhs.histogram.start {
            return Err(Error::IncompatibleTimeRange);
        }
        let histogram = self.histogram.checked_add(&rhs.histogram)?;
        Ok(Self { end: rhs.end, histogram })
    }

    /// Appends the provided snapshot onto this snapshot, extending the covered
    /// time range and combining the bucket counts.
    ///
    /// Bucket counters will wrap on overflow.
    pub fn wrapping_add(&self, rhs: &Self) -> (r: Result<Self, Error>)
        requires
            self.wf(),
            rhs.wf(),
        ensures
            match r {
                Ok(s) => {
                    &&& self.spec_end() == rhs.histogram().spec_start()
                    &&& self.histogram().spec_config() == rhs.histogram().spec_config()
                    &&& s.wf()
                    &&& s.spec_end() == rhs.spec_end()
                    &&& s.histogram().spec_start() == self.histogram().spec_start()
                    &&& s.histogram().spec_config() == self.histogram().spec_config()
                    &&& s.histogram().counts() == counts_wrapping_sum(
                        self.histogram().counts(),
                        rhs.histogram().counts(),
                    )
                },
                Err(e) => {
                    ||| (self.spec_end() != rhs.histogram().spec_start() && e
                        == Error::IncompatibleTimeRange)
                    ||| (self.spec_end() == rhs.histogram().spec_start()
                        && self.histogram().spec_config() != rhs.histogram().spec_config() && e
                        == Error::IncompatibleParameters)
                },
            },
    {
        if self.end != rhs.histogram.start {
            return Err(Error::IncompatibleTimeRange);
        }
        let histogram = self.histogram.wrapping_add(&rhs.histogram)?;
        Ok(Self { end: rhs.end, histogram })
    }

    /// Subtracts the provided snapshot from this snapshot, shrinking the
    /// covered time range to begin at the end of `rhs` and producing a delta
    /// of the bucket counts.
    ///
    /// An error is raised on overflow.
    pub fn checked_sub(&self, rhs: &Self) -> (r: Result<Self, Error>)
        requires
            self.wf(),
            rhs.wf(),
        ensures
            match r {
                Ok(s) => {
                    &&& self.histogram().spec_start()@ >= rhs.histogram().spec_start()@
                    &&& self.spec_end()@ >= rhs.spec_end()@
                    &&& self.histogram().spec_config() == rhs.histogram().spec_config()
                    &&& difference_fits(self.histogram().counts(), rhs.histogram().counts())
                    &&& s.wf()
                    &&& s.spec_end() == self.spec_end()
                    &&& s.histogram().spec_start() == rhs.spec_end()
                    &&& s.histogram().spec_config() == self.histogram().spec_config()
                    &&& s.histogram().counts() == counts_difference(
                        self.histogram().counts(),
                        rhs.histogram().counts(),
                    )
                },
                Err(e) => {
                    ||| ((self.histogram().spec_start()@ < rhs.histogram().spec_start()@
                        || self.spec_end()@ < rhs.spec_end()@) && e
                        == Error::IncompatibleTimeRange)
                    ||| (self.histogram().spec_start()@ >= rhs.histogram().spec_start()@
                        && self.spec_end()@ >= rhs.spec_end()@ && self.histogram().spec_config()
                        != rhs.histogram().spec_config() && e == Error::IncompatibleParameters)
                    ||| (self.histogram().spec_start()@ >= rhs.histogram().spec_start()@
                        && self.spec_end()@ >= rhs.spec_end()@ && self.histogram().spec_config()
                        == rhs.histogram().spec_config() && !difference_fits(
                        self.histogram().counts(),
                        rhs.histogram().counts(),
                    ) && e == Error::Overflow)
                },
            },
    {
        if self.histogram.start.ns < rhs.histogram.start.ns {
            return Err(Error::IncompatibleTimeRange);
        }
        if self.end.ns < rhs.end.ns {
            return Err(Error::IncompatibleTimeRange);
        }
        let mut histogram = self.histogram.checked_sub(&rhs.histogram)?;
        histogram.start = rhs.end;
        Ok(Self { end: self.end, histogram })
    }

    /// Subtracts the provided snapshot, which must share the start of this
    /// snapshot, shrinking the covered time range to begin at the end of `rhs`
    /// and producing a delta of the bucket counts.
    ///
    /// Bucket counters will wrap on underflow.
    pub fn wrapping_sub(&self, rhs: &Self) -> (r: Result<Self, Error>)
        requires
            self.wf(),
            rhs.wf(),
        ensures
            match r {
                Ok(s) => {
                    &&& self.histogram().spec_start() == rhs.histogram().spec_start()
                    &&& self.spec_end()@ >= rhs.spec_end()@
                    &&& self.histogram().spec_config() == rhs.histogram().spec_config()
                    &&& s.wf()
                    &&& s.spec_end() == self.spec_end()
                    &&& s.histogram().spec_start() == rhs.spec_end()
                    &&& s.histogram().spec_config() == self.histogram().spec_config()
                    &&& s.histogram().counts() == counts_wrapping_difference(
                        self.histogram().counts(),
                        rhs.histogram().counts(),
                    )
                },
                Err(e) => {
                    ||| ((self.histogram().spec_start() != rhs.histogram().spec_start()
                        || self.spec_end()@ < rhs.spec_end()@) && e
                        == Error::IncompatibleTimeRange)
                    ||| (self.histogram().spec_start() == rhs.histogram().spec_start()
                        && self.spec_end()@ >= rhs.spec_end()@ && self.histogram().spec_config()
                        != rhs.histogram().spec_config() && e == Error::IncompatibleParameters)
                },
            },
    {
        if self.histogram.start != rhs.histogram.start {
            return Err(Error::IncompatibleTimeRange);
        }
        if self.end.ns < rhs.end.ns {
            return Err(Error::IncompatibleTimeRange);
        }
        let mut histogram = self.histogram.wrapping_sub(&rhs.histogram)?;
        histogram.start = rhs.end;
        Ok(Self { end: self.end, histogram })
    }

    /// The total count for a percentile query: `Empty` if the snapshot holds
    /// no observations.
    pub fn observed_total(&self) -> (r: Result<u128, Error>)
        requires
            self.wf(),
        ensures
            r == if crate::histogram::standard::counts_total(self.histogram().counts()) == 0 {
                Err::<u128, Error>(Error::Empty)
            } else {
                Ok::<u128, Error>(
                    crate::histogram::standard::counts_total(self.histogram().counts()) as u128,
                )
            },
    {
        self.histogram.observed_total()
    }

    /// The sum of all counters.
    pub fn total_count(&self) -> (r: u128)
        requires
            self.wf(),
        ensures
            r == crate::histogram::standard::counts_total(self.histogram().counts()),
    {
        self.histogram.total_count()
    }

    /// The bucket, with its count, at which the running total of the
    /// counters reaches `needed`, or `None` if the total is smaller. See
    /// `Histogram::bucket_for_rank`.
    pub fn bucket_for_rank(&self, needed: u128) -> (r: Option<Bucket>)
        requires
            self.wf(),
        ensures
            ({
                let c = self.histogram().counts();
                let k = crate::histogram::rank::first_reaching(c, needed as nat);
                if k < c.len() {
                    r == Some(
                        crate::histogram::standard::bucket_at(
                            self.histogram().spec_config(),
                            k as int,
                            c[k as int],
                        ),
                    )
                } else {
                    r is None
                }
            }),
    {
        self.histogram.bucket_for_rank(needed)
    }

    /// Returns the bucket configuration of the snapshot.
    pub fn config(&self) -> (r: Config)
        ensures
            r == self.histogram().spec_config(),
    {
        self.histogram.config()
    }

    /// An iterator across the buckets of the snapshot.
    pub fn iter(&self) -> (r: Iter<'_>)
        requires
            self.wf(),
        ensures
            r.inner().spec_index() == 0,
            r.inner().spec_histogram() == self.histogram(),
    {
        Iter { iter: self.histogram.iter() }
    }
}

/// An iterator across the buckets of a snapshot.
pub struct Iter<'a> {
    iter: HistogramIter<'a>,
}

impl<'a> Iter<'a> {
    /// The iterator over the histogram of the snapshot.
    pub closed spec fn inner(&self) -> HistogramIter<'a> {
        self.iter
    }

    /// Returns the next bucket, as the iterator over the histogram does.
    pub fn next(&mut self) -> (r: Option<Bucket>)
        requires
            old(self).inner().spec_histogram().wf(),
        ensures
            final(self).inner().spec_histogram() == old(self).inner().spec_histogram(),
            ({
                let h = old(self).inner().spec_histogram();
                let i = old(self).inner().spec_index();
                if i < h.counts().len() {
                    &&& r == Some(
                        crate::histogram::standard::bucket_at(
                            h.spec_config(),
                            i as int,
                            h.counts()[i as int],
                        ),
                    )
                    &&& final(self).inner().spec_index() == i + 1
                } else {
                    &&& r is None
                    &&& final(self).inner().spec_index() == i
                }
            }),
    {
        self.iter.next()
    }
}

} // verus!
