//! The configuration of a histogram which determines the buckets and how to
//! convert a value to a bucket index and vice versa.
//!
//! A configuration is described by three powers of two:
//! * `a`: values below the cutoff are counted in linear bins of width `2^a`,
//! * `b` (the grouping power): every power of two above the cutoff is split
//!   into `2^b` buckets of equal width,
//! * `n` (the max value power): `2^n - 1` is the largest value that can be
//!   stored.
//!
//! The cutoff is `2^(a + b + 1)`.

use vstd::prelude::*;
use vstd::arithmetic::power2::{
    pow2, lemma_pow2_pos, lemma_pow2_adds, lemma_pow2_unfold,
    lemma_pow2_strictly_increases, lemma2_to64,
};
use vstd::arithmetic::div_mod::{
    lemma_fundamental_div_mod, lemma_fundamental_div_mod_converse, lemma_multiply_divide_lt,
    lemma_div_pos_is_pos, lemma_mod_bound,
};
use vstd::arithmetic::mul::{
    lemma_mul_inequality, lemma_mul_is_distributive_add, lemma_mul_is_associative,
    lemma_mul_is_commutative, lemma_mul_strict_inequality, lemma_mul_is_distributive_sub,
};
use vstd::bits::{lemma_u64_shl_is_mul, lemma_u64_shr_is_div, lemma_u64_pow2_no_overflow,
    lemma_u32_shl_is_mul, lemma_u32_pow2_no_overflow};
use vstd::std_specs::bits::u64_leading_zeros;
use crate::histogram::errors::Error;
use crate::histogram::parameters::Parameters;

verus! {

/// `floor(log2(v))` for `v >= 1`.
pub open spec fn floor_log2(v: nat) -> nat
    decreases v,
{
    if v < 2 {
        0
    } else {
        1 + floor_log2(v / 2)
    }
}

/// The parameters can describe a histogram: `n <= 64` and `a + b < n`.
pub open spec fn valid_params(a: nat, b: nat, n: nat) -> bool {
    n <= 64 && a + b < n
}

/// The number of buckets for the parameters `a`, `b` and `n`: `2^(b + 1)`
/// buckets below the cutoff and `2^b` buckets for each power of two from the
/// cutoff up to `2^n`.
pub open spec fn bucket_count(a: nat, b: nat, n: nat) -> nat {
    pow2(b + 1) + ((n - a - b - 1) as nat) * pow2(b)
}

/// The bucket counts of the histogram fit the 32 bit counters of the
/// configuration and the cutoff fits a `u64`.
pub open spec fn params_fit(a: nat, b: nat, n: nat) -> bool {
    a + b + 1 < 64 && bucket_count(a, b, n) <= u32::MAX
}

/// The largest value that can be stored: `2^n - 1`.
pub open spec fn max_value(n: nat) -> nat {
    (pow2(n) - 1) as nat
}

/// The index of the bucket that holds the value `v`.
pub open spec fn value_index(a: nat, b: nat, v: nat) -> nat {
    if v < pow2(a + b + 1) {
        v / pow2(a)
    } else {
        let k = floor_log2(v);
        pow2(b + 1) + ((k - a - b - 1) as nat) * pow2(b) + ((v - pow2(k)) as nat) / pow2(
            (k - b) as nat,
        )
    }
}

/// The smallest value held by the bucket with index `i`.
pub open spec fn bucket_lower(a: nat, b: nat, i: nat) -> nat {
    let g = i / pow2(b);
    let h = i % pow2(b);
    if g == 0 {
        pow2(a) * h
    } else {
        pow2((a + b + g - 1) as nat) + pow2((a + g - 1) as nat) * h
    }
}

/// The largest value held by the bucket with index `i`: one below the lower
/// bound of the next bucket, or the largest storable value for the last one.
pub open spec fn bucket_upper(a: nat, b: nat, n: nat, i: nat) -> nat {
    if i + 1 == bucket_count(a, b, n) {
        max_value(n)
    } else {
        (bucket_lower(a, b, i + 1) - 1) as nat
    }
}

pub(crate) proof fn lemma_floor_log2_bounds(v: nat)
    requires
        v >= 1,
    ensures
        pow2(floor_log2(v)) <= v < pow2(floor_log2(v) + 1),
    decreases v,
{
    lemma2_to64();
    if v >= 2 {
        lemma_floor_log2_bounds(v / 2);
        let k = floor_log2(v / 2);
        lemma_pow2_unfold(k + 1);
        lemma_pow2_unfold(k + 2);
    }
}

/// `floor_log2(v)` is the exponent of the power of two that brackets `v`.
proof fn lemma_floor_log2_unique(v: nat, k: nat)
    requires
        pow2(k) <= v < pow2(k + 1),
    ensures
        floor_log2(v) == k,
{
    lemma_pow2_pos(k);
    lemma_floor_log2_bounds(v);
    let j = floor_log2(v);
    if j < k {
        if j + 1 < k {
            lemma_pow2_strictly_increases(j + 1, k);
        }
    } else if j > k {
        if k + 1 < j {
            lemma_pow2_strictly_increases(k + 1, j);
        }
    }
}

pub(crate) proof fn lemma_leading_zeros_log2(v: u64)
    requires
        v >= 1,
    ensures
        u64_leading_zeros(v) == 63 - floor_log2(v as nat),
    decreases v,
{
    reveal(u64_leading_zeros);
    if v < 2 {
        assert(u64_leading_zeros(0) == 64) by {
            reveal(u64_leading_zeros);
        }
    } else {
        lemma_leading_zeros_log2(v / 2);
    }
}

/// `floor_log2` grows with its argument.
pub(crate) proof fn lemma_floor_log2_at_least(v: nat, m: nat)
    requires
        pow2(m) <= v,
    ensures
        m <= floor_log2(v),
{
    lemma_pow2_pos(m);
    lemma_floor_log2_bounds(v);
    let k = floor_log2(v);
    if m > k {
        if k + 1 < m {
            lemma_pow2_strictly_increases(k + 1, m);
        }
    }
}

/// The bucket with index `g * 2^b + h` starts at the value given by the
/// closed form that the executable code computes.
pub(crate) proof fn lemma_lower_closed_form(a: nat, b: nat, g: nat, h: nat)
    requires
        h < pow2(b),
    ensures
        bucket_lower(a, b, g * pow2(b) + h) == if g == 0 {
            pow2(a) * h
        } else {
            pow2((a + b + g - 1) as nat) + pow2((a + g - 1) as nat) * h
        },
{
    lemma_pow2_pos(b);
    lemma_fundamental_div_mod_converse(
        (g * pow2(b) + h) as int,
        pow2(b) as int,
        g as int,
        h as int,
    );
}

/// Below the cutoff, bucket `j` starts at `j * 2^a`.
proof fn lemma_lower_linear(a: nat, b: nat, j: nat)
    requires
        j <= pow2(b + 1),
    ensures
        bucket_lower(a, b, j) == pow2(a) * j,
{
    lemma_pow2_pos(b);
    lemma_pow2_unfold(b + 1);
    let p = pow2(b) as int;
    if j < pow2(b) {
        lemma_lower_closed_form(a, b, 0, j);
    } else if j < 2 * pow2(b) {
        let h = (j - p) as nat;
        lemma_lower_closed_form(a, b, 1, h);
        lemma_pow2_adds(a, b);
        assert(pow2(a) * j == pow2(a) * p + pow2(a) * h) by {
            lemma_mul_is_distributive_add(pow2(a) as int, p, h as int);
        }
    } else {
        assert(j == 2 * p);
        lemma_lower_closed_form(a, b, 2, 0);
        lemma_pow2_adds(a, b + 1);
        lemma_mul_is_commutative(pow2(a) as int, pow2(b + 1) as int);
    }
}

/// Above the cutoff, the bucket of group `g >= 1` and offset `h` starts at
/// `2^k + 2^(k - b) * h` where `k = a + b + g - 1`.
proof fn lemma_lower_log(a: nat, b: nat, k: nat, h: nat)
    requires
        k >= a + b + 1,
        h < pow2(b),
    ensures
        bucket_lower(a, b, pow2(b + 1) + ((k - a - b - 1) as nat) * pow2(b) + h) == pow2(k) + pow2(
            (k - b) as nat,
        ) * h,
{
    let g = (k - a - b + 1) as nat;
    lemma_pow2_unfold(b + 1);
    assert(pow2(b + 1) + ((k - a - b - 1) as nat) * pow2(b) == g * pow2(b)) by {
        lemma_mul_is_distributive_add(pow2(b) as int, 2, (k - a - b - 1) as int);
        lemma_mul_is_commutative(pow2(b) as int, g as int);
        lemma_mul_is_commutative(pow2(b) as int, (k - a - b - 1) as int);
    }
    lemma_lower_closed_form(a, b, g, h);
}

/// Every storable value lands in a bucket whose range holds it, and that
/// bucket exists.
pub proof fn lemma_value_in_bucket(a: nat, b: nat, n: nat, v: nat)
    requires
        valid_params(a, b, n),
        v <= max_value(n),
    ensures
        value_index(a, b, v) < bucket_count(a, b, n),
        bucket_lower(a, b, value_index(a, b, v)) <= v <= bucket_upper(
            a,
            b,
            n,
            value_index(a, b, v),
        ),
{
    lemma_pow2_pos(a);
    lemma_pow2_pos(b);
    lemma_pow2_pos(n);
    lemma_pow2_unfold(b + 1);
    let i = value_index(a, b, v);
    let total = bucket_count(a, b, n);
    assert(total >= pow2(b + 1)) by {
        lemma_mul_inequality(0, (n - a - b - 1) as int, pow2(b) as int);
    }
    if v < pow2(a + b + 1) {
        // linear region
        lemma_pow2_adds(a, b + 1);
        assert(i < pow2(b + 1)) by {
            lemma_mul_is_commutative(pow2(a) as int, pow2(b + 1) as int);
            lemma_multiply_divide_lt(v as int, pow2(a) as int, pow2(b + 1) as int);
        }
        lemma_lower_linear(a, b, i);
        lemma_lower_linear(a, b, i + 1);
        lemma_fundamental_div_mod(v as int, pow2(a) as int);
        lemma_mod_bound(v as int, pow2(a) as int);
        assert(pow2(a) * (i + 1) == pow2(a) * i + pow2(a)) by {
            lemma_mul_is_distributive_add(pow2(a) as int, i as int, 1);
        }
    } else {
        // logarithmic region
        lemma_pow2_pos(a + b + 1);
        lemma_floor_log2_bounds(v);
        let k = floor_log2(v);
        lemma_floor_log2_at_least(v, a + b + 1);
        assert(k < n) by {
            if k >= n {
                if n < k {
                    lemma_pow2_strictly_increases(n, k);
                }
            }
        }
        let d = pow2((k - b) as nat);
        lemma_pow2_pos((k - b) as nat);
        lemma_pow2_adds((k - b) as nat, b);
        assert((k - b) as nat + b == k);
        lemma_pow2_unfold(k + 1);
        let r = (v - pow2(k)) as nat;
        let o = r / d;
        assert(r < d * pow2(b));
        assert(o < pow2(b)) by {
            lemma_multiply_divide_lt(r as int, d as int, pow2(b) as int);
        }
        lemma_fundamental_div_mod(r as int, d as int);
        lemma_mod_bound(r as int, d as int);
        lemma_lower_log(a, b, k, o);
        assert(i == pow2(b + 1) + ((k - a - b - 1) as nat) * pow2(b) + o);
        // the index exists
        assert(((k - a - b - 1) as nat) * pow2(b) + o < ((n - a - b - 1) as nat) * pow2(b)) by {
            lemma_mul_inequality((k - a - b) as int, (n - a - b - 1) as int, pow2(b) as int);
            lemma_mul_is_distributive_add(pow2(b) as int, (k - a - b - 1) as int, 1);
            lemma_mul_is_commutative(pow2(b) as int, (k - a - b - 1) as int);
            lemma_mul_is_commutative(pow2(b) as int, (k - a - b) as int);
        }
        // lower bound
        assert(d * o <= r);
        assert(pow2(k) + d * o <= v);
        // upper bound
        if i + 1 < total {
            if o + 1 < pow2(b) {
                lemma_lower_log(a, b, k, o + 1);
                assert(d * (o + 1) == d * o + d) by {
                    lemma_mul_is_distributive_add(d as int, o as int, 1);
                }
            } else {
                assert(o + 1 == pow2(b));
                lemma_lower_log(a, b, k + 1, 0);
                assert(pow2(b + 1) + ((k + 1 - a - b - 1) as nat) * pow2(b) == i + 1) by {
                    lemma_mul_is_distributive_add(pow2(b) as int, (k - a - b - 1) as int, 1);
                    lemma_mul_is_commutative(pow2(b) as int, (k - a - b - 1) as int);
                    lemma_mul_is_commutative(pow2(b) as int, (k - a - b) as int);
                }
            }
        } else {
            assert(v <= max_value(n));
        }
    }
}

/// The lower bound of each bucket is storable and lands in that bucket.
pub proof fn lemma_lower_bound_in_bucket(a: nat, b: nat, n: nat, i: nat)
    requires
        valid_params(a, b, n),
        i < bucket_count(a, b, n),
    ensures
        bucket_lower(a, b, i) <= max_value(n),
        value_index(a, b, bucket_lower(a, b, i)) == i,
{
    lemma_pow2_pos(a);
    lemma_pow2_pos(b);
    lemma_pow2_unfold(b + 1);
    let g = i / pow2(b);
    let h = i % pow2(b);
    lemma_fundamental_div_mod(i as int, pow2(b) as int);
    lemma_mod_bound(i as int, pow2(b) as int);
    lemma_mul_is_commutative(pow2(b) as int, g as int);
    assert(bucket_count(a, b, n) == (n - a - b + 1) * pow2(b)) by {
        lemma_mul_is_distributive_add(pow2(b) as int, 2, (n - a - b - 1) as int);
        lemma_mul_is_commutative(pow2(b) as int, (n - a - b + 1) as int);
        lemma_mul_is_commutative(pow2(b) as int, (n - a - b - 1) as int);
    }
    assert(g < n - a - b + 1) by {
        lemma_mul_is_commutative(pow2(b) as int, (n - a - b + 1) as int);
        lemma_multiply_divide_lt(i as int, pow2(b) as int, (n - a - b + 1) as int);
    }
    let lo = bucket_lower(a, b, i);
    if g <= 1 {
        // linear region: the bucket starts at `i * 2^a`, below the cutoff
        assert(i < pow2(b + 1)) by {
            lemma_mul_inequality(g as int, 1, pow2(b) as int);
        }
        lemma_lower_linear(a, b, i);
        lemma_pow2_adds(a, b + 1);
        assert(lo < pow2(a + b + 1)) by {
            lemma_mul_strict_inequality(i as int, pow2(b + 1) as int, pow2(a) as int);
            lemma_mul_is_commutative(i as int, pow2(a) as int);
            lemma_mul_is_commutative(pow2(b + 1) as int, pow2(a) as int);
        }
        assert(lo / pow2(a) == i) by {
            lemma_mul_is_commutative(i as int, pow2(a) as int);
            lemma_fundamental_div_mod_converse(lo as int, pow2(a) as int, i as int, 0);
        }
        if a + b + 1 < n {
            lemma_pow2_strictly_increases(a + b + 1, n);
        }
    } else {
        // logarithmic region: the bucket starts at `2^k + 2^(k - b) * h`
        let k = (a + b + g - 1) as nat;
        let d = pow2((k - b) as nat);
        lemma_pow2_pos((k - b) as nat);
        lemma_pow2_adds((k - b) as nat, b);
        assert((k - b) as nat + b == k);
        lemma_lower_closed_form(a, b, g, h);
        assert((a + g - 1) as nat == (k - b) as nat);
        assert(lo == pow2(k) + d * h);
        assert(pow2(k) == d * pow2(b));
        assert(d * h < pow2(k)) by {
            lemma_mul_strict_inequality(h as int, pow2(b) as int, d as int);
            lemma_mul_is_commutative(h as int, d as int);
            lemma_mul_is_commutative(pow2(b) as int, d as int);
            assert(h * d < pow2(b) * d);
        }
        lemma_pow2_unfold(k + 1);
        lemma_floor_log2_unique(lo, k);
        assert(pow2(a + b + 1) <= pow2(k)) by {
            if a + b + 1 < k {
                lemma_pow2_strictly_increases(a + b + 1, k);
            }
        }
        assert((lo - pow2(k)) as nat / d == h) by {
            lemma_mul_is_commutative(h as int, d as int);
            lemma_fundamental_div_mod_converse((d * h) as int, d as int, h as int, 0);
        }
        assert(pow2(b + 1) + ((k - a - b - 1) as nat) * pow2(b) + h == i) by {
            lemma_mul_is_distributive_add(pow2(b) as int, 2, (k - a - b - 1) as int);
            lemma_mul_is_commutative(pow2(b) as int, (k - a - b - 1) as int);
            lemma_mul_is_commutative(pow2(b) as int, g as int);
        }
        if k + 1 < n {
            lemma_pow2_strictly_increases(k + 1, n);
        }
    }
}

/// The lower bounds of the buckets increase with the index.
proof fn lemma_lower_increases(a: nat, b: nat, n: nat, i: nat, j: nat)
    requires
        valid_params(a, b, n),
        i < j < bucket_count(a, b, n),
    ensures
        bucket_lower(a, b, i) < bucket_lower(a, b, j),
    decreases j - i,
{
    lemma_lower_bound_in_bucket(a, b, n, i);
    lemma_lower_bound_in_bucket(a, b, n, i + 1);
    lemma_value_in_bucket(a, b, n, bucket_lower(a, b, i));
    lemma_pow2_pos(a);
    lemma_pow2_pos(a + b + 1);
    assert(value_index(a, b, 0) == 0);
    assert(bucket_lower(a, b, i + 1) > 0);
    assert(bucket_upper(a, b, n, i) == bucket_lower(a, b, i + 1) - 1);
    if i + 1 < j {
        lemma_lower_increases(a, b, n, i + 1, j);
    }
}

/// Facts about the group `g = i / 2^b` and offset `h = i % 2^b` of a
/// bucket index: `i == g * 2^b + h`, `h < 2^b`, `g <= n - a - b`, and the
/// bucket count is `(n - a - b + 1) * 2^b`.
pub(crate) proof fn lemma_index_split(a: nat, b: nat, n: nat, i: nat)
    requires
        valid_params(a, b, n),
        i < bucket_count(a, b, n),
    ensures
        i == (i / pow2(b)) * pow2(b) + i % pow2(b),
        i % pow2(b) < pow2(b),
        i / pow2(b) <= n - a - b,
        bucket_count(a, b, n) == (n - a - b + 1) * pow2(b),
{
    lemma_pow2_pos(b);
    lemma_pow2_unfold(b + 1);
    assert(bucket_count(a, b, n) == (n - a - b + 1) * pow2(b)) by {
        lemma_mul_is_distributive_add(pow2(b) as int, 2, (n - a - b - 1) as int);
        lemma_mul_is_commutative(pow2(b) as int, (n - a - b + 1) as int);
        lemma_mul_is_commutative(pow2(b) as int, (n - a - b - 1) as int);
    }
    lemma_fundamental_div_mod(i as int, pow2(b) as int);
    lemma_mod_bound(i as int, pow2(b) as int);
    lemma_mul_is_commutative(pow2(b) as int, (i / pow2(b)) as int);
    assert(i / pow2(b) < n - a - b + 1) by {
        lemma_mul_is_commutative(pow2(b) as int, (n - a - b + 1) as int);
        lemma_multiply_divide_lt(i as int, pow2(b) as int, (n - a - b + 1) as int);
    }
}

/// The bucket ranges tile the storable values: the first starts at zero,
/// each one ends just before the next one starts, the last one ends at the
/// largest storable value (`u64::MAX` for `n = 64`), and both bounds of
/// every bucket land in that bucket.
pub proof fn lemma_ranges_chain(a: nat, b: nat, n: nat, i: nat)
    requires
        valid_params(a, b, n),
        i < bucket_count(a, b, n),
    ensures
        bucket_lower(a, b, 0) == 0,
        bucket_lower(a, b, i) <= bucket_upper(a, b, n, i) <= max_value(n),
        i + 1 < bucket_count(a, b, n) ==> bucket_upper(a, b, n, i) + 1 == bucket_lower(a, b, i + 1),
        i + 1 == bucket_count(a, b, n) ==> bucket_upper(a, b, n, i) == max_value(n),
        value_index(a, b, bucket_lower(a, b, i)) == i,
        value_index(a, b, bucket_upper(a, b, n, i)) == i,
        n == 64 ==> max_value(n) == u64::MAX,
{
    lemma2_to64();
    lemma_pow2_pos(b);
    lemma_fundamental_div_mod_converse(0, pow2(b) as int, 0, 0);
    lemma_lower_bound_in_bucket(a, b, n, i);
    let lo = bucket_lower(a, b, i);
    let up = bucket_upper(a, b, n, i);
    if i + 1 < bucket_count(a, b, n) {
        lemma_lower_increases(a, b, n, i, i + 1);
        lemma_lower_bound_in_bucket(a, b, n, i + 1);
    }
    lemma_value_index_monotone(a, b, n, lo, up);
    lemma_value_in_bucket(a, b, n, up);
    let j = value_index(a, b, up);
    if j > i {
        if j > i + 1 {
            lemma_lower_increases(a, b, n, i + 1, j);
        }
    }
}

/// Larger values land in the same bucket or a later one: the bucket index
/// of a value does not decrease as the value grows.
pub proof fn lemma_value_index_monotone(a: nat, b: nat, n: nat, v1: nat, v2: nat)
    requires
        valid_params(a, b, n),
        v1 <= v2 <= max_value(n),
    ensures
        value_index(a, b, v1) <= value_index(a, b, v2),
{
    let i = value_index(a, b, v1);
    let j = value_index(a, b, v2);
    lemma_value_in_bucket(a, b, n, v1);
    lemma_value_in_bucket(a, b, n, v2);
    if j < i {
        if j + 1 < i {
            lemma_lower_increases(a, b, n, j + 1, i);
        }
        lemma_lower_increases(a, b, n, j, j + 1);
        assert(bucket_upper(a, b, n, j) == bucket_lower(a, b, j + 1) - 1);
    }
}

/// Two multiples of `p` that differ by at least one and at most `p` differ
/// by exactly `p`.
proof fn lemma_multiples_one_apart(x: int, y: int, p: int, o: int)
    requires
        p > 0,
        0 <= o < p,
        x * p + o + 1 == y * p,
    ensures
        y == x + 1,
        o + 1 == p,
{
    assert((y - x) * p == o + 1) by (nonlinear_arith)
        requires
            x * p + o + 1 == y * p,
    ;
    if y - x <= 0 {
        assert((y - x) * p <= 0) by (nonlinear_arith)
            requires
                y - x <= 0,
                p > 0,
        ;
    }
    if y - x >= 2 {
        assert((y - x) * p >= 2 * p) by (nonlinear_arith)
            requires
                y - x >= 2,
                p > 0,
        ;
    }
}

/// Dividing by a coarser power of the same base ignores what is below the
/// finer one: `(d * y + r) / (d * m) == y / m` for `r < d`.
proof fn lemma_div_coarser(y: int, r: int, d: int, m: int)
    requires
        0 <= y,
        0 <= r < d,
        0 < m,
    ensures
        (d * y + r) / (d * m) == y / m,
{
    vstd::arithmetic::div_mod::lemma_div_denominator(d * y + r, d, m);
    lemma_mul_is_commutative(d, y);
    lemma_fundamental_div_mod_converse(d * y + r, d, y, r);
}

/// The value `2^k` with `k >= j` is `2^j` times `2^(k - j)`.
proof fn lemma_pow2_split(k: nat, j: nat)
    requires
        j <= k,
    ensures
        pow2(k) == pow2(j) * pow2((k - j) as nat),
{
    lemma_pow2_adds(j, (k - j) as nat);
}

/// Downsampling does not split buckets: under the same linear and max
/// powers and a smaller grouping power, every value lands in the bucket of
/// the lower bound of its bucket. So a bucket can be moved to the coarser
/// configuration through its lower bound, whatever values it holds.
pub proof fn lemma_downsample_bucket(a: nat, b: nat, b2: nat, n: nat, v: nat)
    requires
        valid_params(a, b, n),
        b2 < b,
        v <= max_value(n),
    ensures
        value_index(a, b2, bucket_lower(a, b, value_index(a, b, v))) == value_index(a, b2, v),
{
    lemma_value_in_bucket(a, b, n, v);
    lemma_pow2_pos(a);
    lemma_pow2_pos(b);
    lemma_pow2_unfold(b + 1);
    let i = value_index(a, b, v);
    let l = bucket_lower(a, b, i);
    let c2 = pow2(a + b2 + 1);
    lemma_pow2_pos(a + b2 + 1);
    assert(c2 <= pow2(a + b + 1)) by {
        if b2 < b {
            lemma_pow2_strictly_increases(a + b2 + 1, a + b + 1);
        }
    }
    if v < pow2(a + b + 1) {
        // the old bucket is linear: it starts at the multiple of 2^a below v
        lemma_pow2_adds(a, b + 1);
        assert(i < pow2(b + 1)) by {
            lemma_mul_is_commutative(pow2(a) as int, pow2(b + 1) as int);
            lemma_multiply_divide_lt(v as int, pow2(a) as int, pow2(b + 1) as int);
        }
        lemma_lower_linear(a, b, i);
        let q = v / pow2(a);
        let rv = v % pow2(a);
        lemma_fundamental_div_mod(v as int, pow2(a) as int);
        lemma_mod_bound(v as int, pow2(a) as int);
        lemma_mul_is_commutative(pow2(a) as int, q as int);
        assert(l == pow2(a) * q);
        if v < c2 {
            // linear in the new configuration as well
            vstd::arithmetic::div_mod::lemma_div_multiples_vanish(q as int, pow2(a) as int);
            assert(l <= v);
            assert(value_index(a, b2, l) == l / pow2(a));
            assert(value_index(a, b2, v) == q);
        } else {
            lemma_floor_log2_bounds(v);
            let k = floor_log2(v);
            lemma_floor_log2_at_least(v, a + b2 + 1);
            lemma_pow2_split(k, a);
            let e = pow2((k - a) as nat);
            // 2^k is a multiple of 2^a below v, so it is at most l
            assert(e <= q) by {
                lemma_fundamental_div_mod_converse(pow2(k) as int, pow2(a) as int, e as int, 0);
                lemma_mul_is_commutative(pow2(a) as int, e as int);
                vstd::arithmetic::div_mod::lemma_div_is_ordered(
                    pow2(k) as int,
                    v as int,
                    pow2(a) as int,
                );
            }
            assert(pow2(k) <= l) by {
                lemma_mul_inequality(e as int, q as int, pow2(a) as int);
                lemma_mul_is_commutative(pow2(a) as int, e as int);
                lemma_mul_is_commutative(pow2(a) as int, q as int);
            }
            lemma_floor_log2_unique(l, k);
            lemma_pow2_split((k - b2) as nat, a);
            let m = pow2((k - b2 - a) as nat);
            lemma_pow2_pos((k - b2 - a) as nat);
            assert(pow2((k - b2) as nat) == pow2(a) * m);
            assert(v - pow2(k) == pow2(a) * (q - e) + rv) by {
                lemma_mul_is_distributive_sub(pow2(a) as int, q as int, e as int);
            }
            assert(l - pow2(k) == pow2(a) * (q - e) + 0) by {
                lemma_mul_is_distributive_sub(pow2(a) as int, q as int, e as int);
            }
            lemma_div_coarser((q - e) as int, rv as int, pow2(a) as int, m as int);
            lemma_div_coarser((q - e) as int, 0, pow2(a) as int, m as int);
            if a + b2 + 1 < k {
                lemma_pow2_strictly_increases(a + b2 + 1, k);
            }
            assert(l >= c2);
            assert(((v - pow2(k)) as nat) / pow2((k - b2) as nat) == ((l - pow2(k)) as nat) / pow2(
                (k - b2) as nat,
            ));
        }
    } else {
        // the old bucket is logarithmic: it starts at 2^k + d * o
        lemma_pow2_pos(a + b + 1);
        lemma_floor_log2_bounds(v);
        let k = floor_log2(v);
        lemma_floor_log2_at_least(v, a + b + 1);
        let d = pow2((k - b) as nat);
        lemma_pow2_pos((k - b) as nat);
        lemma_pow2_adds((k - b) as nat, b);
        assert((k - b) as nat + b == k);
        lemma_pow2_unfold(k + 1);
        let r = (v - pow2(k)) as nat;
        let o = r / d;
        let rr = r % d;
        assert(o < pow2(b)) by {
            lemma_multiply_divide_lt(r as int, d as int, pow2(b) as int);
        }
        lemma_fundamental_div_mod(r as int, d as int);
        lemma_mod_bound(r as int, d as int);
        lemma_lower_log(a, b, k, o);
        assert(l == pow2(k) + d * o);
        lemma_floor_log2_unique(l, k);
        lemma_pow2_split((k - b2) as nat, (k - b) as nat);
        let m = pow2((b - b2) as nat);
        lemma_pow2_pos((b - b2) as nat);
        assert((k - b2 - (k - b)) as nat == (b - b2) as nat);
        lemma_div_coarser(o as int, rr as int, d as int, m as int);
        lemma_div_coarser(o as int, 0, d as int, m as int);
        assert(pow2((k - b2) as nat) == d * m);
        assert(r == d * o + rr);
        lemma_pow2_strictly_increases(a + b2 + 1, k);
        assert(l >= c2);
        assert(((v - pow2(k)) as nat) / pow2((k - b2) as nat) == ((l - pow2(k)) as nat) / pow2(
            (k - b2) as nat,
        ));
    }
}

/// The relative error of a bucket: below the cutoff `2^(a + b + 1)` a bucket
/// holds `2^a` values; above it, the number of values a bucket holds, times
/// `2^b`, is at most its lower bound, so that any value of the bucket is
/// within a relative error of `2^-b` of any other.
pub proof fn lemma_bucket_width(a: nat, b: nat, n: nat, v: nat)
    requires
        valid_params(a, b, n),
        v <= max_value(n),
    ensures
        ({
            let i = value_index(a, b, v);
            let width = bucket_upper(a, b, n, i) - bucket_lower(a, b, i) + 1;
            &&& v < pow2(a + b + 1) ==> width == pow2(a)
            &&& v >= pow2(a + b + 1) ==> width * pow2(b) <= bucket_lower(a, b, i) <= v
        }),
{
    lemma_value_in_bucket(a, b, n, v);
    lemma_pow2_pos(a);
    lemma_pow2_pos(b);
    lemma_pow2_pos(n);
    lemma_pow2_unfold(b + 1);
    let i = value_index(a, b, v);
    let total = bucket_count(a, b, n);
    if v < pow2(a + b + 1) {
        lemma_pow2_adds(a, b + 1);
        assert(i < pow2(b + 1)) by {
            lemma_mul_is_commutative(pow2(a) as int, pow2(b + 1) as int);
            lemma_multiply_divide_lt(v as int, pow2(a) as int, pow2(b + 1) as int);
        }
        lemma_lower_linear(a, b, i);
        lemma_lower_linear(a, b, i + 1);
        assert(pow2(a) * (i + 1) == pow2(a) * i + pow2(a)) by {
            lemma_mul_is_distributive_add(pow2(a) as int, i as int, 1);
        }
        if i + 1 == total {
            // the linear buckets are all the buckets: the last one ends at
            // 2^n - 1 = 2^(a + b + 1) - 1
            assert(((n - a - b - 1) as nat) * pow2(b) == 0);
            if n > a + b + 1 {
                lemma_mul_inequality(1, (n - a - b - 1) as int, pow2(b) as int);
            }
            assert(i + 1 == pow2(b + 1));
            lemma_mul_is_commutative(pow2(a) as int, pow2(b + 1) as int);
        }
    } else {
        lemma_pow2_pos(a + b + 1);
        lemma_floor_log2_bounds(v);
        let k = floor_log2(v);
        lemma_floor_log2_at_least(v, a + b + 1);
        assert(k < n) by {
            if k >= n {
                if n < k {
                    lemma_pow2_strictly_increases(n, k);
                }
            }
        }
        let d = pow2((k - b) as nat);
        lemma_pow2_pos((k - b) as nat);
        lemma_pow2_adds((k - b) as nat, b);
        assert((k - b) as nat + b == k);
        lemma_pow2_unfold(k + 1);
        let r = (v - pow2(k)) as nat;
        let o = r / d;
        assert(o < pow2(b)) by {
            lemma_multiply_divide_lt(r as int, d as int, pow2(b) as int);
        }
        lemma_lower_log(a, b, k, o);
        assert(i == pow2(b + 1) + ((k - a - b - 1) as nat) * pow2(b) + o);
        assert(d * (o + 1) == d * o + d) by {
            lemma_mul_is_distributive_add(d as int, o as int, 1);
        }
        assert(d * o <= d * pow2(b)) by {
            lemma_mul_inequality(o as int, pow2(b) as int, d as int);
            lemma_mul_is_commutative(d as int, o as int);
            lemma_mul_is_commutative(d as int, pow2(b) as int);
        }
        if i + 1 < total {
            if o + 1 < pow2(b) {
                lemma_lower_log(a, b, k, o + 1);
            } else {
                assert(o + 1 == pow2(b));
                lemma_lower_log(a, b, k + 1, 0);
                assert(pow2(b + 1) + ((k + 1 - a - b - 1) as nat) * pow2(b) == i + 1) by {
                    lemma_mul_is_distributive_add(pow2(b) as int, (k - a - b - 1) as int, 1);
                    lemma_mul_is_commutative(pow2(b) as int, (k - a - b - 1) as int);
                    lemma_mul_is_commutative(pow2(b) as int, (k - a - b) as int);
                }
            }
        } else {
            // the last bucket: it is the last of the last power of two
            lemma_mul_is_commutative(pow2(b) as int, (k - a - b - 1) as int);
            lemma_mul_is_commutative(pow2(b) as int, (n - a - b - 1) as int);
            lemma_multiples_one_apart(
                (k - a - b - 1) as int,
                (n - a - b - 1) as int,
                pow2(b) as int,
                o as int,
            );
            assert(k + 1 == n);
            assert(o + 1 == pow2(b));
        }
    }
}


/// A histogram configuration. Each value in `0..=max` maps to exactly one
/// bucket, and each bucket covers a contiguous range of values.
#[derive(Clone, Copy, PartialEq, Eq, Structural, Debug)]
pub struct Config {
    max: u64,
    a: u8,
    p: u8,
    n: u8,
    cutoff_power: u8,
    cutoff_value: u64,
    lower_bin_count: u32,
    upper_bin_divisions: u32,
    upper_bin_count: u32,
}

impl Config {
    /// The linear bin width power `a`.
    pub closed spec fn linear_power(self) -> nat {
        self.a as nat
    }

    /// The grouping power `b`.
    pub closed spec fn spec_grouping_power(self) -> nat {
        self.p as nat
    }

    /// The max value power `n`.
    pub closed spec fn spec_max_value_power(self) -> nat {
        self.n as nat
    }

    /// The derived fields agree with the three powers.
    pub closed spec fn wf(self) -> bool {
        let a = self.a as nat;
        let b = self.p as nat;
        let n = self.n as nat;
        &&& valid_params(a, b, n)
        &&& params_fit(a, b, n)
        &&& self.max == max_value(n)
        &&& self.cutoff_power == a + b + 1
        &&& self.cutoff_value == pow2(a + b + 1)
        &&& self.lower_bin_count == pow2(b + 1)
        &&& self.upper_bin_divisions == pow2(b)
        &&& self.upper_bin_count == ((n - a - b - 1) as nat) * pow2(b)
    }

    /// The number of buckets.
    pub open spec fn spec_total_bins(self) -> nat {
        bucket_count(self.linear_power(), self.spec_grouping_power(), self.spec_max_value_power())
    }

    /// The largest storable value.
    pub open spec fn spec_max(self) -> nat {
        max_value(self.spec_max_value_power())
    }

    /// The bucket index of a value.
    pub open spec fn spec_index(self, v: nat) -> nat {
        value_index(self.linear_power(), self.spec_grouping_power(), v)
    }

    /// The inclusive lower bound of a bucket.
    pub open spec fn spec_lower(self, i: nat) -> nat {
        bucket_lower(self.linear_power(), self.spec_grouping_power(), i)
    }

    /// The inclusive upper bound of a bucket.
    pub open spec fn spec_upper(self, i: nat) -> nat {
        bucket_upper(
            self.linear_power(),
            self.spec_grouping_power(),
            self.spec_max_value_power(),
            i,
        )
    }

    /// The well-formed configuration with the powers `a`, `b` and `n`.
    pub closed spec fn spec_of(a: nat, b: nat, n: nat) -> Config {
        Config {
            max: max_value(n) as u64,
            a: a as u8,
            p: b as u8,
            n: n as u8,
            cutoff_power: (a + b + 1) as u8,
            cutoff_value: pow2(a + b + 1) as u64,
            lower_bin_count: pow2(b + 1) as u32,
            upper_bin_divisions: pow2(b) as u32,
            upper_bin_count: (((n - a - b - 1) as nat) * pow2(b)) as u32,
        }
    }

    /// A well-formed configuration is determined by its three powers.
    pub proof fn lemma_spec_of(c: Config)
        requires
            c.wf(),
        ensures
            c == Config::spec_of(c.linear_power(), c.spec_grouping_power(), c.spec_max_value_power()),
    {
    }

    /// Facts that hold of every well-formed configuration.
    pub proof fn lemma_wf(self)
        requires
            self.wf(),
        ensures
            valid_params(self.linear_power(), self.spec_grouping_power(), self.spec_max_value_power()),
            params_fit(self.linear_power(), self.spec_grouping_power(), self.spec_max_value_power()),
            0 < self.spec_total_bins() <= u32::MAX,
            self.spec_max() <= u64::MAX,
    {
        lemma_pow2_pos(self.p as nat + 1);
        lemma_u64_pow2_no_overflow(0);
        assert(self.spec_max() <= u64::MAX) by {
            lemma2_to64();
            if self.n < 64 {
                lemma_pow2_strictly_increases(self.n as nat, 64);
            }
        }
    }

    /// The configuration of three powers that describe a histogram is well
    /// formed, has those powers, `bucket_count(a, b, n)` buckets and a
    /// largest storable value of `2^n - 1`.
    pub proof fn lemma_of_powers(a: nat, b: nat, n: nat)
        requires
            valid_params(a, b, n),
            params_fit(a, b, n),
        ensures
            Config::spec_of(a, b, n).wf(),
            Config::spec_of(a, b, n).linear_power() == a,
            Config::spec_of(a, b, n).spec_grouping_power() == b,
            Config::spec_of(a, b, n).spec_max_value_power() == n,
            Config::spec_of(a, b, n).spec_total_bins() == bucket_count(a, b, n),
            Config::spec_of(a, b, n).spec_max() == max_value(n),
    {
        lemma2_to64();
        lemma_pow2_pos(b);
        lemma_pow2_pos(n);
        lemma_mul_inequality(0, (n - a - b - 1) as int, pow2(b) as int);
        lemma_u64_pow2_no_overflow(a + b + 1);
        if n < 64 {
            lemma_pow2_strictly_increases(n, 64);
        }
        let c = Config::spec_of(a, b, n);
        assert(pow2(b + 1) <= u32::MAX);
        assert(((n - a - b - 1) as nat) * pow2(b) <= u32::MAX);
        assert(pow2(b) <= pow2(b + 1)) by {
            lemma_pow2_strictly_increases(b, b + 1);
        }
        assert(max_value(n) <= u64::MAX);
        assert(pow2(a + b + 1) <= u64::MAX);
        assert(c.max == max_value(n));
        assert(c.cutoff_value == pow2(a + b + 1));
        assert(c.lower_bin_count == pow2(b + 1));
        assert(c.upper_bin_divisions == pow2(b));
        assert(c.upper_bin_count == ((n - a - b - 1) as nat) * pow2(b));
    }

    fn build(a: u8, b: u8, n: u8) -> (c: Config)
        requires
            valid_params(a as nat, b as nat, n as nat),
            params_fit(a as nat, b as nat, n as nat),
        ensures
            c.wf(),
            c.linear_power() == a,
            c.spec_grouping_power() == b,
            c.spec_max_value_power() == n,
    {
        let ghost total = bucket_count(a as nat, b as nat, n as nat);
        proof {
            lemma2_to64();
            lemma_pow2_pos(b as nat);
            lemma_pow2_unfold(b as nat + 1);
            lemma_mul_inequality(0, (n - a - b - 1) as int, pow2(b as nat) as int);
            if b + 1 >= 32 {
                if 32 < b + 1 {
                    lemma_pow2_strictly_increases(32, b as nat + 1);
                }
            }
            lemma_u32_pow2_no_overflow(b as nat);
            lemma_u32_pow2_no_overflow(b as nat + 1);
            lemma_u64_pow2_no_overflow(a as nat + b as nat + 1);
            lemma_u32_shl_is_mul(1, (b + 1) as u32);
            lemma_u32_shl_is_mul(1, b as u32);
            lemma_u64_shl_is_mul(1, (a + b + 1) as u64);
        }
        let cutoff_power = a + b + 1;
        let cutoff_value = 1u64 << (cutoff_power as u64);
        let lower_bin_count = 1u32 << ((b + 1) as u32);
        let upper_bin_divisions = 1u32 << (b as u32);
        let upper_bin_count = ((n - cutoff_power) as u32) * upper_bin_divisions;
        let max = if n == 64 {
            u64::MAX
        } else {
            proof {
                lemma_u64_pow2_no_overflow(n as nat);
                lemma_u64_shl_is_mul(1, n as u64);
            }
            (1u64 << (n as u64)) - 1
        };
        Config {
            max,
            a,
            p: b,
            n,
            cutoff_power,
            cutoff_value,
            lower_bin_count,
            upper_bin_divisions,
            upper_bin_count,
        }
    }

    /// Whether parameters that describe a histogram give bucket counts that
    /// fit the counters of a configuration: the condition that the
    /// constructors require.
    pub fn supported(a: u8, b: u8, n: u8) -> (r: bool)
        ensures
            r == (valid_params(a as nat, b as nat, n as nat) ==> params_fit(
                a as nat,
                b as nat,
                n as nat,
            )),
    {
        if n > 64 || (a as u16) + (b as u16) >= (n as u16) {
            return true;
        }
        if (a as u16) + (b as u16) + 1 >= 64 {
            return false;
        }
        if b >= 32 {
            proof {
                lemma_pow2_strictly_increases(32, b as nat + 1);
                lemma2_to64();
                lemma_mul_inequality(0, (n - a - b - 1) as int, pow2(b as nat) as int);
            }
            return false;
        }
        proof {
            lemma_u64_pow2_no_overflow(b as nat);
            lemma_u64_pow2_no_overflow(b as nat + 1);
            lemma_u64_shl_is_mul(1, b as u64);
            lemma_u64_shl_is_mul(1, (b + 1) as u64);
            lemma_pow2_strictly_increases(b as nat, 32);
            lemma2_to64();
            lemma_mul_inequality((n - a - b - 1) as int, 64, pow2(b as nat) as int);
        }
        let lower = 1u64 << ((b + 1) as u64);
        let upper = ((n - a - b - 1) as u64) * (1u64 << (b as u64));
        lower + upper <= 0xffff_ffff
    }

    /// Create a new configuration with linear buckets of width one below the
    /// cutoff. Returns `MaxPowerTooHigh` if `max_value_power` exceeds 64 and
    /// `MaxPowerTooLow` if it does not exceed `grouping_power`.
    pub fn new(grouping_power: u8, max_value_power: u8) -> (r: Result<Config, Error>)
        requires
            valid_params(0, grouping_power as nat, max_value_power as nat) ==> params_fit(
                0,
                grouping_power as nat,
                max_value_power as nat,
            ),
        ensures
            match r {
                Ok(c) => {
                    &&& valid_params(0, grouping_power as nat, max_value_power as nat)
                    &&& c.wf()
                    &&& c.linear_power() == 0
                    &&& c.spec_grouping_power() == grouping_power
                    &&& c.spec_max_value_power() == max_value_power
                },
                Err(e) => {
                    ||| (max_value_power > 64 && e == Error::MaxPowerTooHigh)
                    ||| (max_value_power <= 64 && grouping_power >= max_value_power && e
                        == Error::MaxPowerTooLow)
                },
            },
    {
        Self::with_linear_power(0, grouping_power, max_value_power)
    }

    /// Create a new configuration with linear buckets of width `2^a` below the
    /// cutoff `2^(a + b + 1)`, `2^b` buckets per power of two above it and a
    /// largest value of `2^n - 1`.
    pub fn with_linear_power(a: u8, b: u8, n: u8) -> (r: Result<Config, Error>)
        requires
            valid_params(a as nat, b as nat, n as nat) ==> params_fit(
                a as nat,
                b as nat,
                n as nat,
            ),
        ensures
            match r {
                Ok(c) => {
                    &&& valid_params(a as nat, b as nat, n as nat)
                    &&& c.wf()
                    &&& c.linear_power() == a
                    &&& c.spec_grouping_power() == b
                    &&& c.spec_max_value_power() == n
                },
                Err(e) => {
                    ||| (n > 64 && e == Error::MaxPowerTooHigh)
                    ||| (n <= 64 && a + b >= n && e == Error::MaxPowerTooLow)
                },
            },
    {
        // we only allow values up to 2^64
        if n > 64 {
            return Err(Error::MaxPowerTooHigh);
        }
        // check that the other parameters make sense together
        if (a as u16) + (b as u16) >= (n as u16) {
            return Err(Error::MaxPowerTooLow);
        }
        Ok(Self::build(a, b, n))
    }

    /// Returns the parameters that were used to create the configuration.
    pub fn params(&self) -> (r: Parameters)
        requires
            self.wf(),
        ensures
            r.grouping_power == self.spec_grouping_power(),
            r.max_value_power == self.spec_max_value_power(),
    {
        Parameters { grouping_power: self.p, max_value_power: self.n }
    }

    /// Returns the linear bin width power `a`.
    pub fn linear_power_value(&self) -> (r: u8)
        ensures
            r == self.linear_power(),
    {
        self.a
    }

    /// Returns the grouping power.
    pub fn grouping_power(&self) -> (r: u8)
        ensures
            r == self.spec_grouping_power(),
    {
        self.p
    }

    /// Returns the max value power.
    pub fn max_value_power(&self) -> (r: u8)
        ensures
            r == self.spec_max_value_power(),
    {
        self.n
    }

    /// Returns the largest value that can be stored.
    pub fn max(&self) -> (r: u64)
        requires
            self.wf(),
        ensures
            r == self.spec_max(),
    {
        self.max
    }

    /// Converts a value to a bucket index. Returns an error if the value is
    /// outside of the range for the config.
    pub fn value_to_index(&self, value: u64) -> (r: Result<usize, Error>)
        requires
            self.wf(),
        ensures
            match r {
                Ok(i) => {
                    &&& value <= self.spec_max()
                    &&& i == self.spec_index(value as nat)
                    &&& i < self.spec_total_bins()
                },
                Err(e) => value > self.spec_max() && e == Error::OutOfRange,
            },
    {
        let ghost a = self.a as nat;
        let ghost b = self.p as nat;
        let ghost n = self.n as nat;
        proof {
            self.lemma_wf();
            lemma_pow2_pos(a);
            lemma_u64_pow2_no_overflow(a);
        }
        if value < self.cutoff_value {
            proof {
                lemma_u64_shr_is_div(value, self.a as u64);
                if a + b + 1 < n {
                    lemma_pow2_strictly_increases(a + b + 1, n);
                }
                lemma_value_in_bucket(a, b, n, value as nat);
                lemma_pow2_strictly_increases(a + b + 1, 64);
                lemma2_to64();
            }
            return Ok((value >> (self.a as u64)) as usize);
        }
        if value > self.max {
            return Err(Error::OutOfRange);
        }
        proof {
            lemma_pow2_pos(a + b + 1);
            lemma_value_in_bucket(a, b, n, value as nat);
            lemma_leading_zeros_log2(value);
            lemma_floor_log2_bounds(value as nat);
            lemma_floor_log2_at_least(value as nat, a + b + 1);
        }
        let power = 63 - value.leading_zeros();
        let ghost k = power as nat;
        assert(k == floor_log2(value as nat));
        let log_bin = power - self.cutoff_power as u32;
        proof {
            lemma_u64_pow2_no_overflow(k);
            lemma_u64_shl_is_mul(1, power as u64);
            lemma_u64_shr_is_div((value - pow2(k)) as u64, (power - self.p as u32) as u64);
        }
        let offset = (value - (1u64 << (power as u64))) >> ((power - self.p as u32) as u64);
        proof {
            let total = bucket_count(a, b, n);
            assert(pow2(b + 1) + (log_bin as nat) * pow2(b) + offset as nat == value_index(
                a,
                b,
                value as nat,
            ));
            lemma_mul_inequality(0, log_bin as int, pow2(b) as int);
            assert(log_bin as nat * pow2(b) <= total);
        }
        let index = self.lower_bin_count + log_bin * self.upper_bin_divisions + offset as u32;
        Ok(index as usize)
    }

    /// Facts about the group `g = i >> b` and offset `h` of a valid index.
    proof fn lemma_index_parts(self, i: nat)
        requires
            self.wf(),
            i < self.spec_total_bins(),
        ensures
            ({
                let a = self.a as nat;
                let b = self.p as nat;
                let n = self.n as nat;
                let g = i / pow2(b);
                let h = i % pow2(b);
                &&& i == g * pow2(b) + h
                &&& h < pow2(b)
                &&& g <= n - a - b
                &&& self.spec_total_bins() == (n - a - b + 1) * pow2(b)
            }),
    {
        let a = self.a as nat;
        let b = self.p as nat;
        let n = self.n as nat;
        lemma_pow2_pos(b);
        lemma_pow2_unfold(b + 1);
        assert(self.spec_total_bins() == (n - a - b + 1) * pow2(b)) by {
            lemma_mul_is_distributive_add(pow2(b) as int, 2, (n - a - b - 1) as int);
            lemma_mul_is_commutative(pow2(b) as int, (n - a - b + 1) as int);
            lemma_mul_is_commutative(pow2(b) as int, (n - a - b - 1) as int);
        }
        lemma_fundamental_div_mod(i as int, pow2(b) as int);
        lemma_mod_bound(i as int, pow2(b) as int);
        lemma_mul_is_commutative(pow2(b) as int, (i / pow2(b)) as int);
        assert(i / pow2(b) < n - a - b + 1) by {
            lemma_mul_is_commutative(pow2(b) as int, (n - a - b + 1) as int);
            lemma_multiply_divide_lt(i as int, pow2(b) as int, (n - a - b + 1) as int);
        }
    }

    /// `2^e` computed with a shift, for `e < 64`.
    fn shl_one(e: u64) -> (r: u64)
        requires
            e < 64,
        ensures
            r == pow2(e as nat),
    {
        proof {
            lemma_u64_pow2_no_overflow(e as nat);
            lemma_u64_shl_is_mul(1, e);
        }
        1u64 << e
    }

    /// Convert a bucket index to a lower bound.
    pub fn index_to_lower_bound(&self, index: usize) -> (r: u64)
        requires
            self.wf(),
            index < self.spec_total_bins(),
        ensures
            r == self.spec_lower(index as nat),
    {
        let ghost a = self.a as nat;
        let ghost b = self.p as nat;
        let ghost n = self.n as nat;
        let ghost i = index as nat;
        proof {
            self.lemma_wf();
            self.lemma_index_parts(i);
            lemma_u64_shr_is_div(index as u64, self.p as u64);
            lemma_pow2_pos(a);
            lemma_pow2_pos(b);
        }
        let g = (index as u64) >> (self.p as u64);
        let h = index as u64 - g * Self::shl_one(self.p as u64);
        if g < 1 {
            proof {
                lemma_pow2_adds(a, b);
                lemma_mul_strict_inequality(h as int, pow2(b) as int, pow2(a) as int);
                lemma_mul_is_commutative(h as int, pow2(a) as int);
                lemma_mul_is_commutative(pow2(b) as int, pow2(a) as int);
                lemma_u64_pow2_no_overflow(a + b);
            }
            Self::shl_one(self.a as u64) * h
        } else {
            let ghost e1 = (a + b + g - 1) as nat;
            let ghost e2 = (a + g - 1) as nat;
            proof {
                lemma_pow2_pos(e2);
                lemma_pow2_adds(e2, b);
                lemma_mul_strict_inequality(h as int, pow2(b) as int, pow2(e2) as int);
                lemma_mul_is_commutative(h as int, pow2(e2) as int);
                lemma_mul_is_commutative(pow2(b) as int, pow2(e2) as int);
                lemma_pow2_unfold(e1 + 1);
                lemma2_to64();
                if e1 + 1 < 64 {
                    lemma_pow2_strictly_increases(e1 + 1, 64);
                }
            }
            Self::shl_one((self.a as u64) + (self.p as u64) + g - 1) + Self::shl_one(
                (self.a as u64) + g - 1,
            ) * h
        }
    }

    /// Convert a bucket index to an upper inclusive bound.
    pub fn index_to_upper_bound(&self, index: usize) -> (r: u64)
        requires
            self.wf(),
            index < self.spec_total_bins(),
        ensures
            r == self.spec_upper(index as nat),
    {
        let ghost a = self.a as nat;
        let ghost b = self.p as nat;
        let ghost n = self.n as nat;
        let ghost i = index as nat;
        proof {
            self.lemma_wf();
            self.lemma_index_parts(i);
            lemma_pow2_unfold(b + 1);
        }
        if index as u32 == self.lower_bin_count + self.upper_bin_count - 1 {
            return self.max;
        }
        proof {
            lemma_u64_shr_is_div(index as u64, self.p as u64);
            lemma_pow2_pos(a);
            lemma_pow2_pos(b);
        }
        let g = (index as u64) >> (self.p as u64);
        let h = index as u64 - g * Self::shl_one(self.p as u64) + 1;
        proof {
            if h < pow2(b) {
                lemma_lower_closed_form(a, b, g as nat, h as nat);
            } else {
                lemma_lower_closed_form(a, b, g as nat + 1, 0);
                assert((g as nat + 1) * pow2(b) + 0 == i + 1) by {
                    lemma_mul_is_distributive_add(pow2(b) as int, g as int, 1);
                    lemma_mul_is_commutative(pow2(b) as int, g as int);
                    lemma_mul_is_commutative(pow2(b) as int, g as int + 1);
                }
                assert(g as nat + 1 <= n - a - b) by {
                    if g as nat + 1 > n - a - b {
                        lemma_mul_inequality((n - a - b + 1) as int, g as int + 1, pow2(b) as int);
                    }
                }
            }
        }
        if g < 1 {
            proof {
                lemma_pow2_adds(a, b);
                lemma_mul_inequality(h as int, pow2(b) as int, pow2(a) as int);
                lemma_mul_is_commutative(h as int, pow2(a) as int);
                lemma_mul_is_commutative(pow2(b) as int, pow2(a) as int);
                lemma_u64_pow2_no_overflow(a + b);
                lemma_mul_inequality(1, h as int, pow2(a) as int);
            }
            Self::shl_one(self.a as u64) * h - 1
        } else {
            let ghost e1 = (a + b + g - 1) as nat;
            let ghost e2 = (a + g - 1) as nat;
            proof {
                lemma_pow2_pos(e2);
                lemma_pow2_pos(e1);
                lemma_pow2_adds(e2, b);
                lemma_mul_is_commutative(h as int, pow2(e2) as int);
                lemma_mul_is_commutative(pow2(b) as int, pow2(e2) as int);
                lemma_pow2_unfold(e1 + 1);
                lemma2_to64();
                if e1 + 1 < 64 {
                    lemma_pow2_strictly_increases(e1 + 1, 64);
                }
                if h < pow2(b) {
                    lemma_mul_strict_inequality(h as int, pow2(b) as int, pow2(e2) as int);
                } else {
                    assert(h == pow2(b));
                }
            }
            Self::shl_one((self.a as u64) + (self.p as u64) + g - 1) + Self::shl_one(
                (self.a as u64) + g - 1,
            ) * h - 1
        }
    }

    /// Convert a bucket index to its inclusive range of values.
    pub fn index_to_range(&self, index: usize) -> (r: core::ops::RangeInclusive<u64>)
        requires
            self.wf(),
            index < self.spec_total_bins(),
        ensures
            r@.start == self.spec_lower(index as nat),
            r@.end == self.spec_upper(index as nat),
            r@.exhausted == false,
    {
        core::ops::RangeInclusive::new(
            self.index_to_lower_bound(index),
            self.index_to_upper_bound(index),
        )
    }

    /// Return the total number of bins (buckets) needed for this config.
    pub fn total_bins(&self) -> (r: usize)
        requires
            self.wf(),
        ensures
            r == self.spec_total_bins(),
    {
        proof {
            self.lemma_wf();
            lemma_pow2_unfold(self.p as nat + 1);
            lemma_pow2_pos(self.p as nat);
        }
        (self.lower_bin_count + self.upper_bin_count) as usize
    }
}

} // verus!
