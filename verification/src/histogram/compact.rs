//! Compact histogram representation which is useful for serialization when
//! the data is sparse.

use vstd::prelude::*;
use vstd::std_specs::convert::FromSpecImpl;
use core::sync::atomic::Ordering;
use crate::histogram::atomic::AtomicHistogram;
use crate::histogram::config::{Config, valid_params, params_fit};
use crate::histogram::errors::Error;
use crate::histogram::sparse::{Entry, nonzero_entries, zip_entries};
use crate::histogram::standard::{Histogram as PlainHistogram, counts_total};

verus! {

broadcast use crate::histogram::standard::group_histogram_view;

/// A compact histogram which stores bucket indices and counts to efficiently
/// represent a sparse histogram, with the parameters `a`, `b` and `n` of its
/// configuration.
#[derive(Default)]
pub struct Histogram {
    a: u8,
    b: u8,
    n: u8,
    pub(crate) index: Vec<usize>,
    pub(crate) count: Vec<u64>,
}

/// The count of the first entry with bucket index `i`, or zero if there is
/// none.
pub open spec fn count_at(entries: Seq<Entry>, i: usize) -> u64
    decreases entries.len(),
{
    if entries.len() == 0 {
        0
    } else if entries[0].0 == i {
        entries[0].1
    } else {
        count_at(entries.drop_first(), i)
    }
}

impl Histogram {
    /// The parameters `a`, `b` and `n`.
    pub closed spec fn spec_params(&self) -> (u8, u8, u8) {
        (self.a, self.b, self.n)
    }

    /// The buckets as `(index, count)` pairs.
    pub open spec fn entries(&self) -> Seq<Entry> {
        zip_entries(self.spec_index(), self.spec_count())
    }

    /// The bucket indices.
    pub closed spec fn spec_index(&self) -> Seq<usize> {
        self.index@
    }

    /// The bucket counts.
    pub closed spec fn spec_count(&self) -> Seq<u64> {
        self.count@
    }

    /// The index and count vectors have the same length.
    pub open spec fn wf(&self) -> bool {
        self.spec_index().len() == self.spec_count().len()
    }

    /// A compact histogram from its parameters and its bucket indices and
    /// counts, as read from a serialized form. Returns `MaxPowerTooHigh` if
    /// `n` exceeds 64, `MaxPowerTooLow` unless `n` is greater than `a + b`, and
    /// `LengthMismatch` if the vectors have different lengths.
    pub fn from_parts(a: u8, b: u8, n: u8, index: Vec<usize>, count: Vec<u64>) -> (r: Result<
        Self,
        Error,
    >)
        ensures
            match r {
                Ok(h) => {
                    &&& n <= 64
                    &&& a + b < n
                    &&& index@.len() == count@.len()
                    &&& h.wf()
                    &&& h.spec_params() == (a, b, n)
                    &&& h.spec_index() == index@
                    &&& h.spec_count() == count@
                },
                Err(e) => {
                    ||| (n > 64 && e == Error::MaxPowerTooHigh)
                    ||| (n <= 64 && n <= a + b && e == Error::MaxPowerTooLow)
                    ||| (n <= 64 && a + b < n && index@.len() != count@.len() && e
                        == Error::LengthMismatch)
                },
            },
    {
        if n > 64 {
            return Err(Error::MaxPowerTooHigh);
        }
        if (n as u16) <= (a as u16) + (b as u16) {
            return Err(Error::MaxPowerTooLow);
        }
        if index.len() != count.len() {
            return Err(Error::LengthMismatch);
        }
        Ok(Histogram { a, b, n, index, count })
    }

    /// Returns the parameters `a`, `b` and `n`.
    pub fn params(&self) -> (r: (u8, u8, u8))
        ensures
            r == self.spec_params(),
    {
        (self.a, self.b, self.n)
    }

    /// Returns the bucket indices.
    pub fn index(&self) -> (r: &[usize])
        ensures
            r@ == self.spec_index(),
    {
        self.index.as_slice()
    }

    /// Returns the bucket counts.
    pub fn count(&self) -> (r: &[u64])
        ensures
            r@ == self.spec_count(),
    {
        self.count.as_slice()
    }

    /// The configuration of the parameters, which must describe a
    /// histogram (`a + b < n <= 64`).
    pub fn config(&self) -> (r: Config)
        requires
            valid_params(self.spec_params().0 as nat, self.spec_params().1 as nat, self.spec_params().2 as nat),
            params_fit(self.spec_params().0 as nat, self.spec_params().1 as nat, self.spec_params().2 as nat),
        ensures
            r.wf(),
            r == Config::spec_of(self.spec_params().0 as nat, self.spec_params().1 as nat, self.spec_params().2 as nat),
    {
        match Config::with_linear_power(self.a, self.b, self.n) {
            Ok(c) => {
                proof {
                    Config::lemma_spec_of(c);
                }
                c
            },
            Err(_) => unreached(),
        }
    }

    /// The sum of all counts.
    pub fn total_count(&self) -> (r: u128)
        ensures
            r == counts_total(self.spec_count()),
    {
        let mut total: u128 = 0;
        let mut i: usize = 0;
        while i < self.count.len()
            invariant
                i <= self.count@.len(),
                total == counts_total(self.count@.take(i as int)),
                total <= i * (u64::MAX as nat),
            decreases self.count@.len() - i,
        {
            proof {
                assert(self.count@.take(i + 1).drop_last() == self.count@.take(i as int));
            }
            total = total + self.count[i] as u128;
            i = i + 1;
        }
        assert(self.count@.take(i as int) == self.count@);
        total
    }

    /// The count of the bucket with the given index: the count of the first
    /// entry with that index, or zero if there is none.
    pub fn get_count(&self, index: usize) -> (r: u64)
        requires
            self.wf(),
        ensures
            r == count_at(self.entries(), index),
    {
        let mut k: usize = 0;
        assert(self.entries().subrange(0, self.entries().len() as int) =~= self.entries());
        while k < self.index.len()
            invariant
                self.wf(),
                k <= self.index@.len(),
                count_at(self.entries(), index) == count_at(
                    self.entries().subrange(k as int, self.entries().len() as int),
                    index,
                ),
            decreases self.index@.len() - k,
        {
            let ghost rest = self.entries().subrange(k as int, self.entries().len() as int);
            assert(rest.drop_first() =~= self.entries().subrange(k + 1, self.entries().len() as int));
            if self.index[k] == index {
                return self.count[k];
            }
            k = k + 1;
        }
        assert(self.entries().subrange(k as int, self.entries().len() as int).len() == 0);
        0
    }

    /// The compact histogram of the nonzero buckets of a histogram.
    pub fn from_histogram(other: &PlainHistogram) -> (r: Self)
        ensures
            r.wf(),
            r.spec_params() == (
                other.spec_config().linear_power() as u8,
                other.spec_config().spec_grouping_power() as u8,
                other.spec_config().spec_max_value_power() as u8,
            ),
            r.entries() == nonzero_entries(other.counts()),
    {
        let config = other.config();
        let counts = other.as_slice();
        let mut index: Vec<usize> = Vec::new();
        let mut count: Vec<u64> = Vec::new();
        let mut i: usize = 0;
        while i < counts.len()
            invariant
                i <= counts@.len(),
                counts@ == other.counts(),
                index@.len() == count@.len(),
                zip_entries(index@, count@) == nonzero_entries(counts@.take(i as int)),
            decreases counts@.len() - i,
        {
            assert(counts@.take(i + 1).drop_last() =~= counts@.take(i as int));
            let ghost before = zip_entries(index@, count@);
            if counts[i] != 0 {
                index.push(i);
                count.push(counts[i]);
            }
            assert(zip_entries(index@, count@) =~= crate::histogram::sparse::push_nonzero(
                before,
                i,
                counts@[i as int],
            ));
            i = i + 1;
        }
        assert(counts@.take(i as int) =~= counts@);
        Histogram {
            a: config.linear_power_value(),
            b: config.grouping_power(),
            n: config.max_value_power(),
            index,
            count,
        }
    }

    /// The compact histogram of the nonzero counters of an atomic histogram,
    /// as they are read.
    pub fn from_atomic(other: &AtomicHistogram) -> (r: Self)
        ensures
            r.wf(),
            r.spec_params() == (
                other.spec_config().linear_power() as u8,
                other.spec_config().spec_grouping_power() as u8,
                other.spec_config().spec_max_value_power() as u8,
            ),
    {
        let config = other.config();
        let (index, count) = nonzero_counters(other.as_slice());
        Histogram {
            a: config.linear_power_value(),
            b: config.grouping_power(),
            n: config.max_value_power(),
            index,
            count,
        }
    }
}

/// The positions, in increasing order, and the values of the nonzero
/// counters, as they are read.
fn nonzero_counters(counters: &[core::sync::atomic::AtomicU64]) -> (r: (Vec<usize>, Vec<u64>))
    ensures
        r.0@.len() == r.1@.len(),
        forall|k: int| 0 <= k < r.0@.len() ==> #[trigger] r.0@[k] < counters@.len(),
        forall|j: int, k: int| 0 <= j < k < r.0@.len() ==> r.0@[j] < r.0@[k],
        forall|k: int| 0 <= k < r.1@.len() ==> #[trigger] r.1@[k] != 0,
{
    let mut index: Vec<usize> = Vec::new();
    let mut count: Vec<u64> = Vec::new();
    let mut i: usize = 0;
    while i < counters.len()
        invariant
            i <= counters@.len(),
            index@.len() == count@.len(),
            forall|k: int| 0 <= k < index@.len() ==> #[trigger] index@[k] < i,
            forall|j: int, k: int| 0 <= j < k < index@.len() ==> index@[j] < index@[k],
            forall|k: int| 0 <= k < count@.len() ==> #[trigger] count@[k] != 0,
        decreases counters@.len() - i,
    {
        let c = counters[i].load(Ordering::Relaxed);
        if c != 0 {
            index.push(i);
            count.push(c);
        }
        i = i + 1;
    }
    (index, count)
}

impl From<&PlainHistogram> for Histogram {
    fn from(other: &PlainHistogram) -> (r: Self) {
        Self::from_histogram(other)
    }
}

impl FromSpecImpl<&PlainHistogram> for Histogram {
    /// Verified callers use `from_histogram`, whose contract states the
    /// result.
    open spec fn obeys_from_spec() -> bool {
        false
    }

    open spec fn from_spec(v: &PlainHistogram) -> Histogram {
        arbitrary()
    }
}

impl From<&AtomicHistogram> for Histogram {
    fn from(other: &AtomicHistogram) -> (r: Self) {
        Self::from_atomic(other)
    }
}

impl FromSpecImpl<&AtomicHistogram> for Histogram {
    /// Verified callers use `from_atomic`, whose contract states what holds
    /// of the result.
    open spec fn obeys_from_spec() -> bool {
        false
    }

    open spec fn from_spec(v: &AtomicHistogram) -> Histogram {
        arbitrary()
    }
}

} // verus!
