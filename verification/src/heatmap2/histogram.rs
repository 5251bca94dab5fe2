use vstd::prelude::*;
use vstd::arithmetic::power2::{
    pow2, lemma_pow2_pos, lemma_pow2_adds, lemma_pow2_unfold, lemma_pow2_strictly_increases,
    lemma2_to64,
};
use vstd::arithmetic::mul::{
    lemma_mul_inequality, lemma_mul_is_commutative, lemma_mul_strict_inequality,
    lemma_mul_is_distributive_add,
};
use vstd::bits::{lemma_u64_shl_is_mul, lemma_u64_shr_is_div, lemma_u64_pow2_no_overflow};
use core::sync::atomic::{AtomicU32, Ordering};
use crate::histogram::config::{
    valid_params, bucket_count, max_value, value_index, bucket_lower, bucket_upper, floor_log2,
    lemma_value_in_bucket, lemma_leading_zeros_log2, lemma_floor_log2_bounds,
    lemma_floor_log2_at_least, lemma_lower_closed_form, lemma_index_split,
};
use crate::histogram::rank::{first_reaching, last_nonzero, rank_index, last_nonzero_index};

verus! {

/// A simple concurrent histogram that can be used to track the distribution
/// of occurrences of `u64` values. Internally it uses 32bit atomic counters,
/// which can change through a shared reference, so nothing is known of the
/// values that are read from them. Its buckets are those of the powers `a`,
/// `b` and `n`: width `2^a` below `2^(a + b + 1)`, then `2^b` buckets for
/// each power of two up to the largest value `2^n - 1`.
pub struct Histogram {
    a: u8,
    b: u8,
    n: u8,
    pub(crate) buckets: Vec<AtomicU32>,
}

/// The range of values held by a bucket, both bounds inclusive.
#[derive(Copy, Clone, Debug, PartialEq, Eq, Structural)]
pub struct Bucket {
    lower: u64,
    upper: u64,
}

/// A 32 bit count as a `u64`.
fn widen(c: u32) -> (r: u64)
    ensures
        r == c,
{
    c as u64
}

/// `2^e` computed with a shift, for `e < 64`.
fn shl_one(e: u64) -> (r: u64)
    requires
        e < 64,
    ensures
        r == pow2(e as nat),
{
    proof {
        lemma_u64_pow2_no_overflow(e as nat);
        lemma_u64_shl_is_mul(1, e);
    }
    1u64 << e
}

/// The powers describe buckets that this histogram can hold: `a + b < n <=
/// 64`, the cutoff `2^(a + b + 1)` is below `2^64`, and the bucket count
/// fits a `usize`.
pub open spec fn heatmap2_params(a: nat, b: nat, n: nat) -> bool {
    &&& valid_params(a, b, n)
    &&& a + b + 1 < 64
    &&& bucket_count(a, b, n) <= usize::MAX
}

impl Bucket {
    /// The smallest value held by the bucket.
    pub closed spec fn spec_lower(self) -> u64 {
        self.lower
    }

    /// The largest value held by the bucket.
    pub closed spec fn spec_upper(self) -> u64 {
        self.upper
    }

    /// Returns the smallest value held by the bucket.
    pub fn lower(&self) -> (r: u64)
        ensures
            r == self.spec_lower(),
    {
        self.lower
    }

    /// Returns the largest value held by the bucket.
    pub fn upper(&self) -> (r: u64)
        ensures
            r == self.spec_upper(),
    {
        self.upper
    }
}

impl Histogram {
    /// The linear power `a`.
    pub closed spec fn spec_a(&self) -> nat {
        self.a as nat
    }

    /// The grouping power `b`.
    pub closed spec fn spec_b(&self) -> nat {
        self.b as nat
    }

    /// The max value power `n`.
    pub closed spec fn spec_n(&self) -> nat {
        self.n as nat
    }

    /// The number of counters.
    pub closed spec fn spec_len(&self) -> nat {
        self.buckets@.len()
    }

    /// The largest storable value.
    pub open spec fn spec_max(&self) -> nat {
        max_value(self.spec_n())
    }

    /// The number of buckets.
    pub open spec fn spec_total_bins(&self) -> nat {
        bucket_count(self.spec_a(), self.spec_b(), self.spec_n())
    }

    /// The index of the bucket that holds a value.
    pub open spec fn spec_index(&self, v: nat) -> nat {
        value_index(self.spec_a(), self.spec_b(), v)
    }

    /// The smallest value of the bucket with index `i`.
    pub open spec fn spec_lower(&self, i: nat) -> nat {
        bucket_lower(self.spec_a(), self.spec_b(), i)
    }

    /// The largest value of the bucket with index `i`.
    pub open spec fn spec_upper(&self, i: nat) -> nat {
        bucket_upper(self.spec_a(), self.spec_b(), self.spec_n(), i)
    }

    /// The powers describe the buckets and there is one counter per bucket.
    pub open spec fn wf(&self) -> bool {
        &&& heatmap2_params(self.spec_a(), self.spec_b(), self.spec_n())
        &&& self.spec_len() == self.spec_total_bins()
    }

    /// Creates a histogram with every counter at zero, with buckets of width
    /// `2^a` below `2^(a + b + 1)`, `2^b` buckets for each power of two above
    /// it, and a largest value of `2^n - 1`. The parameters must satisfy
    /// `n <= 64` and `a + b < n`; the cutoff `2^(a + b + 1)` must be below
    /// `2^64`, and the number of buckets must fit a `usize`.
    pub fn new(a: u8, b: u8, n: u8) -> (r: Self)
        requires
            heatmap2_params(a as nat, b as nat, n as nat),
        ensures
            r.wf(),
            r.spec_a() == a,
            r.spec_b() == b,
            r.spec_n() == n,
    {
        let ghost total = bucket_count(a as nat, b as nat, n as nat);
        proof {
            lemma_pow2_pos(b as nat);
            lemma_pow2_unfold(b as nat + 1);
            lemma_mul_inequality(0, (n - a - b - 1) as int, pow2(b as nat) as int);
            lemma_u64_pow2_no_overflow(b as nat + 1);
            lemma_u64_pow2_no_overflow(b as nat);
            lemma_mul_inequality((n - a - b - 1) as int, 64, pow2(b as nat) as int);
        }
        let lower_bin_count = shl_one((b + 1) as u64) as usize;
        let upper_bin_divisions = shl_one(b as u64) as usize;
        let total_bins = lower_bin_count + ((n - (a + b + 1)) as usize) * upper_bin_divisions;
        let mut buckets: Vec<AtomicU32> = Vec::with_capacity(total_bins);
        while buckets.len() < total_bins
            invariant
                buckets.len() <= total_bins,
            decreases total_bins - buckets.len(),
        {
            buckets.push(AtomicU32::new(0));
        }
        Self { a, b, n, buckets }
    }

    /// Provides raw access to the bucket counters.
    pub fn as_raw(&self) -> (r: &[AtomicU32])
        ensures
            r@.len() == self.spec_len(),
    {
        self.buckets.as_slice()
    }

    /// The index of the bucket that holds the value, which must not exceed
    /// the largest storable value.
    pub fn value_to_index(&self, value: u64) -> (r: usize)
        requires
            self.wf(),
            value <= self.spec_max(),
        ensures
            r == self.spec_index(value as nat),
            r < self.spec_total_bins(),
    {
        let ghost a = self.a as nat;
        let ghost b = self.b as nat;
        let ghost n = self.n as nat;
        proof {
            lemma_value_in_bucket(a, b, n, value as nat);
            lemma_pow2_pos(a);
            lemma_u64_pow2_no_overflow(a);
            lemma2_to64();
        }
        let cutoff_power = (self.a as u64) + (self.b as u64) + 1;
        if value < shl_one(cutoff_power) {
            proof {
                lemma_u64_shr_is_div(value, self.a as u64);
            }
            return (value >> (self.a as u64)) as usize;
        }
        proof {
            lemma_pow2_pos(a + b + 1);
            lemma_leading_zeros_log2(value);
            lemma_floor_log2_bounds(value as nat);
            lemma_floor_log2_at_least(value as nat, a + b + 1);
        }
        let power = 63 - value.leading_zeros();
        let ghost k = power as nat;
        assert(k == floor_log2(value as nat));
        let log_bin = (power as u64) - cutoff_power;
        proof {
            lemma_u64_pow2_no_overflow(k);
            lemma_u64_shl_is_mul(1, power as u64);
            lemma_u64_shr_is_div((value - pow2(k)) as u64, ((power as u64) - (self.b as u64)) as u64);
        }
        let offset = (value - (1u64 << (power as u64))) >> ((power as u64) - (self.b as u64));
        proof {
            let total = bucket_count(a, b, n);
            assert(pow2(b + 1) + (log_bin as nat) * pow2(b) + offset as nat == value_index(
                a,
                b,
                value as nat,
            ));
            lemma_mul_inequality(0, log_bin as int, pow2(b) as int);
            lemma_u64_pow2_no_overflow(b + 1);
            lemma_u64_pow2_no_overflow(b);
        }
        let index = shl_one((self.b as u64) + 1) + log_bin * shl_one(self.b as u64) + offset;
        index as usize
    }

    /// The smallest value held by the bucket with the given index.
    pub fn index_to_lower_bound(&self, index: usize) -> (r: u64)
        requires
            self.wf(),
            index < self.spec_total_bins(),
        ensures
            r == self.spec_lower(index as nat),
    {
        let ghost a = self.a as nat;
        let ghost b = self.b as nat;
        let ghost n = self.n as nat;
        let ghost i = index as nat;
        proof {
            lemma_index_split(a, b, n, i);
            lemma_u64_shr_is_div(index as u64, self.b as u64);
            lemma_pow2_pos(a);
            lemma_pow2_pos(b);
            lemma_u64_pow2_no_overflow(b);
        }
        let g = (index as u64) >> (self.b as u64);
        let h = index as u64 - g * shl_one(self.b as u64);
        if g < 1 {
            proof {
                lemma_pow2_adds(a, b);
                lemma_mul_strict_inequality(h as int, pow2(b) as int, pow2(a) as int);
                lemma_mul_is_commutative(h as int, pow2(a) as int);
                lemma_mul_is_commutative(pow2(b) as int, pow2(a) as int);
                lemma_u64_pow2_no_overflow(a + b);
                lemma_lower_closed_form(a, b, 0, h as nat);
            }
            shl_one(self.a as u64) * h
        } else {
            let ghost e1 = (a + b + g - 1) as nat;
            let ghost e2 = (a + g - 1) as nat;
            proof {
                lemma_pow2_pos(e2);
                lemma_pow2_adds(e2, b);
                lemma_mul_strict_inequality(h as int, pow2(b) as int, pow2(e2) as int);
                lemma_mul_is_commutative(h as int, pow2(e2) as int);
                lemma_mul_is_commutative(pow2(b) as int, pow2(e2) as int);
                lemma_pow2_unfold(e1 + 1);
                lemma2_to64();
                if e1 + 1 < 64 {
                    lemma_pow2_strictly_increases(e1 + 1, 64);
                }
                lemma_lower_closed_form(a, b, g as nat, h as nat);
            }
            shl_one((self.a as u64) + (self.b as u64) + g - 1) + shl_one((self.a as u64) + g - 1)
                * h
        }
    }

    /// The largest value held by the bucket with the given index.
    pub fn index_to_upper_bound(&self, index: usize) -> (r: u64)
        requires
            self.wf(),
            index < self.spec_total_bins(),
        ensures
            r == self.spec_upper(index as nat),
    {
        let ghost a = self.a as nat;
        let ghost b = self.b as nat;
        let ghost n = self.n as nat;
        let ghost i = index as nat;
        proof {
            lemma_index_split(a, b, n, i);
            lemma_pow2_unfold(b + 1);
        }
        if index == self.buckets.len() - 1 {
            proof {
                lemma2_to64();
                lemma_pow2_pos(n);
                if n < 64 {
                    lemma_pow2_strictly_increases(n, 64);
                }
            }
            return if self.n == 64 {
                u64::MAX
            } else {
                shl_one(self.n as u64) - 1
            };
        }
        proof {
            lemma_u64_shr_is_div(index as u64, self.b as u64);
            lemma_pow2_pos(a);
            lemma_pow2_pos(b);
            lemma_u64_pow2_no_overflow(b);
        }
        let g = (index as u64) >> (self.b as u64);
        let h = index as u64 - g * shl_one(self.b as u64) + 1;
        proof {
            if h < pow2(b) {
                lemma_lower_closed_form(a, b, g as nat, h as nat);
            } else {
                lemma_lower_closed_form(a, b, g as nat + 1, 0);
                assert((g as nat + 1) * pow2(b) + 0 == i + 1) by {
                    lemma_mul_is_distributive_add(pow2(b) as int, g as int, 1);
                    lemma_mul_is_commutative(pow2(b) as int, g as int);
                    lemma_mul_is_commutative(pow2(b) as int, g as int + 1);
                }
                assert(g as nat + 1 <= n - a - b) by {
                    if g as nat + 1 > n - a - b {
                        lemma_mul_inequality((n - a - b + 1) as int, g as int + 1, pow2(b) as int);
                    }
                }
            }
        }
        if g < 1 {
            proof {
                lemma_pow2_adds(a, b);
                lemma_mul_inequality(h as int, pow2(b) as int, pow2(a) as int);
                lemma_mul_is_commutative(h as int, pow2(a) as int);
                lemma_mul_is_commutative(pow2(b) as int, pow2(a) as int);
                lemma_u64_pow2_no_overflow(a + b);
                lemma_mul_inequality(1, h as int, pow2(a) as int);
            }
            shl_one(self.a as u64) * h - 1
        } else {
            let ghost e1 = (a + b + g - 1) as nat;
            let ghost e2 = (a + g - 1) as nat;
            proof {
                lemma_pow2_pos(e2);
                lemma_pow2_pos(e1);
                lemma_pow2_adds(e2, b);
                lemma_mul_is_commutative(h as int, pow2(e2) as int);
                lemma_mul_is_commutative(pow2(b) as int, pow2(e2) as int);
                lemma_pow2_unfold(e1 + 1);
                lemma2_to64();
                if e1 + 1 < 64 {
                    lemma_pow2_strictly_increases(e1 + 1, 64);
                }
                if h < pow2(b) {
                    lemma_mul_strict_inequality(h as int, pow2(b) as int, pow2(e2) as int);
                } else {
                    assert(h == pow2(b));
                }
            }
            shl_one((self.a as u64) + (self.b as u64) + g - 1) + shl_one((self.a as u64) + g - 1)
                * h - 1
        }
    }

    /// The bucket with the given index.
    pub fn get_bucket(&self, index: usize) -> (r: Bucket)
        requires
            self.wf(),
            index < self.spec_total_bins(),
        ensures
            r.spec_lower() == self.spec_lower(index as nat),
            r.spec_upper() == self.spec_upper(index as nat),
    {
        Bucket { lower: self.index_to_lower_bound(index), upper: self.index_to_upper_bound(index) }
    }

    /// Increment the count of observations for the bucket corresponding to
    /// the provided value by one, which must not exceed the largest storable
    /// value.
    ///
    /// Wrapping addition is performed and the internal counters are only
    /// 32bit.
    pub fn increment(&self, value: u64)
        requires
            self.wf(),
            value <= self.spec_max(),
    {
        let index = self.value_to_index(value);
        self.buckets[index].fetch_add(1, Ordering::Relaxed);
    }

    /// Reads every counter, in bucket order, widened to `u64`.
    pub fn counts(&self) -> (r: Vec<u64>)
        ensures
            r@.len() == self.spec_len(),
    {
        let mut r: Vec<u64> = Vec::with_capacity(self.buckets.len());
        let mut i: usize = 0;
        while i < self.buckets.len()
            invariant
                i <= self.buckets@.len(),
                r@.len() == i,
            decreases self.buckets@.len() - i,
        {
            let c = self.buckets[i].load(Ordering::Relaxed);
            r.push(widen(c));
            i = i + 1;
        }
        r
    }

    /// The bucket at which the running total of `counts` (counters read from
    /// this histogram, in bucket order) reaches `needed`. If the total of the
    /// counts is smaller, which can happen while the counters are being
    /// changed, the bucket with the largest index whose count is nonzero.
    pub fn bucket_for_rank(&self, counts: &Vec<u64>, needed: u64) -> (r: Bucket)
        requires
            self.wf(),
            counts@.len() == self.spec_len(),
        ensures
            ({
                let k = first_reaching(counts@, needed as nat);
                let i = if k < counts@.len() {
                    k
                } else {
                    last_nonzero(counts@, counts@.len() as int)
                };
                &&& r.spec_lower() == self.spec_lower(i)
                &&& r.spec_upper() == self.spec_upper(i)
            }),
    {
        proof {
            lemma_pow2_pos(self.b as nat);
            lemma_pow2_unfold(self.b as nat + 1);
        }
        let k = rank_index(counts.as_slice(), needed as u128);
        if k < counts.len() {
            self.get_bucket(k)
        } else {
            let i = last_nonzero_index(counts.as_slice());
            self.get_bucket(i)
        }
    }
}

} // verus!
