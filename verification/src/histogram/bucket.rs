//! Buckets represent quantized value ranges and a count of observations within
//! that range.

use vstd::prelude::*;

verus! {

/// A bucket represents a quantized range of values and a count of observations
/// that fall into that range.
#[derive(Copy, Clone, Debug, PartialEq, Eq, Structural)]
pub struct Bucket {
    pub(crate) count: u64,
    pub(crate) lower: u64,
    pub(crate) upper: u64,
}

/// The view of a bucket is its stored fields.
pub(crate) broadcast proof fn lemma_bucket_view(b: Bucket)
    ensures
        #[trigger] b.spec_count() == b.count,
        b.spec_lower() == b.lower,
        b.spec_upper() == b.upper,
{
}

/// A bucket built from its fields is that bucket.
pub(crate) broadcast proof fn lemma_bucket_new(count: u64, lower: u64, upper: u64)
    ensures
        #[trigger] Bucket::spec_new(count, lower, upper) == (Bucket { count, lower, upper }),
{
}

/// The fields of a bucket are what its views show.
pub(crate) broadcast group group_bucket_view {
    lemma_bucket_view,
    lemma_bucket_new,
}

impl Bucket {
    /// The bucket with the given count and inclusive bounds.
    pub closed spec fn spec_new(count: u64, lower: u64, upper: u64) -> Bucket {
        Bucket { count, lower, upper }
    }

    /// The number of observations.
    pub closed spec fn spec_count(self) -> u64 {
        self.count
    }

    /// The inclusive lower bound.
    pub closed spec fn spec_lower(self) -> u64 {
        self.lower
    }

    /// The inclusive upper bound.
    pub closed spec fn spec_upper(self) -> u64 {
        self.upper
    }

    /// Returns the number of observations within the bucket's range.
    pub fn count(&self) -> (r: u64)
        ensures
            r == self.spec_count(),
    {
        self.count
    }

    /// Returns the range for the bucket.
    pub fn range(&self) -> (r: core::ops::RangeInclusive<u64>)
        ensures
            r@.start == self.spec_lower(),
            r@.end == self.spec_upper(),
            r@.exhausted == false,
    {
        core::ops::RangeInclusive::new(self.lower, self.upper)
    }

    /// Returns the inclusive lower bound for the bucket.
    pub fn lower(&self) -> (r: u64)
        ensures
            r == self.spec_lower(),
    {
        self.lower
    }

    /// Returns the inclusive upper bound for the bucket.
    pub fn upper(&self) -> (r: u64)
        ensures
            r == self.spec_upper(),
    {
        self.upper
    }
}

} // verus!
