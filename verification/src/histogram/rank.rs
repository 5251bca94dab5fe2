//! Finding the bucket at which the running total of the counts reaches a
//! rank: the integer part of a percentile query. The rank for a percentile
//! `p` of a total count `t` is `ceil(p / 100 * t)`.

use vstd::prelude::*;

verus! {

/// The sum of the first `i` counts.
pub open spec fn running_total(counts: Seq<u64>, i: int) -> nat
    decreases i,
{
    if i <= 0 {
        0
    } else {
        running_total(counts, i - 1) + counts[i - 1] as nat
    }
}

/// The first index from `i` on at which the running total, including the
/// count at that index, reaches `needed`; the length if there is none.
pub open spec fn first_reaching_from(counts: Seq<u64>, needed: nat, i: int) -> nat
    decreases counts.len() - i,
{
    if i < 0 || i >= counts.len() {
        counts.len()
    } else if running_total(counts, i + 1) >= needed {
        i as nat
    } else {
        first_reaching_from(counts, needed, i + 1)
    }
}

/// The first index at which the running total, including the count at that
/// index, reaches `needed`; the length if there is none.
pub open spec fn first_reaching(counts: Seq<u64>, needed: nat) -> nat {
    first_reaching_from(counts, needed, 0)
}

/// The index found is the first one whose running total reaches the rank:
/// the running total reaches it there and not before.
pub proof fn lemma_first_reaching(counts: Seq<u64>, needed: nat, i: int)
    requires
        0 <= i <= counts.len(),
        forall|j: int| 0 <= j < i ==> #[trigger] running_total(counts, j + 1) < needed,
    ensures
        first_reaching_from(counts, needed, i) <= counts.len(),
        first_reaching_from(counts, needed, i) < counts.len() ==> running_total(
            counts,
            first_reaching_from(counts, needed, i) + 1int,
        ) >= needed,
        forall|j: int|
            0 <= j < first_reaching_from(counts, needed, i) ==> #[trigger] running_total(
                counts,
                j + 1,
            ) < needed,
    decreases counts.len() - i,
{
    if i < counts.len() && running_total(counts, i + 1) < needed {
        lemma_first_reaching(counts, needed, i + 1);
    }
}

/// The running total of the first `j` counts depends only on those counts.
pub proof fn lemma_running_total_prefix(c: Seq<u64>, d: Seq<u64>, j: int)
    requires
        0 <= j <= c.len(),
        j <= d.len(),
        forall|i: int| 0 <= i < j ==> c[i] == d[i],
    ensures
        running_total(c, j) == running_total(d, j),
    decreases j,
{
    if j > 0 {
        lemma_running_total_prefix(c, d, j - 1);
    }
}

/// The index found is the one where the running total first reaches the
/// rank, or the length when it never does.
pub proof fn lemma_first_reaching_is(c: Seq<u64>, needed: nat, k: nat)
    requires
        k <= c.len(),
        k < c.len() ==> running_total(c, k + 1int) >= needed,
        forall|j: int| 0 <= j < k ==> #[trigger] running_total(c, j + 1) < needed,
    ensures
        first_reaching(c, needed) == k,
{
    lemma_first_reaching(c, needed, 0);
    let f = first_reaching(c, needed);
    if f < k {
        assert(running_total(c, f + 1int) < needed);
    } else if f > k {
        assert(running_total(c, k + 1int) < needed);
    }
}

/// The first index from `i` on whose running sum is at least `needed`; the
/// length if there is none.
pub open spec fn first_at_least_from(sums: Seq<u64>, needed: nat, i: int) -> nat
    decreases sums.len() - i,
{
    if i < 0 || i >= sums.len() {
        sums.len()
    } else if sums[i] >= needed {
        i as nat
    } else {
        first_at_least_from(sums, needed, i + 1)
    }
}

/// The largest index with a nonzero count among the first `i`, or zero if
/// there is none.
pub open spec fn last_nonzero(counts: Seq<u64>, i: int) -> nat
    decreases i,
{
    if i <= 0 {
        0
    } else if counts[i - 1] != 0 {
        (i - 1) as nat
    } else {
        last_nonzero(counts, i - 1)
    }
}

/// The first index at which the running total of the counts, including the
/// count at that index, reaches `needed`, or the length of `counts` if the
/// total of all counts is smaller.
pub fn rank_index(counts: &[u64], needed: u128) -> (r: usize)
    ensures
        r == first_reaching(counts@, needed as nat),
        r <= counts@.len(),
{
    let mut have: u128 = 0;
    let mut i: usize = 0;
    while i < counts.len()
        invariant
            i <= counts@.len(),
            have == running_total(counts@, i as int),
            i > 0 ==> have < needed,
            first_reaching(counts@, needed as nat) == first_reaching_from(
                counts@,
                needed as nat,
                i as int,
            ),
        decreases counts@.len() - i,
    {
        let c = counts[i] as u128;
        if have >= needed || needed - have <= c {
            return i;
        }
        have = have + c;
        i = i + 1;
    }
    i
}

/// The first index whose running sum in `sums` is at least `needed`, or the
/// length of `sums` if there is none.
pub fn first_at_least_index(sums: &[u64], needed: u64) -> (r: usize)
    ensures
        r == first_at_least_from(sums@, needed as nat, 0),
        r <= sums@.len(),
{
    let mut i: usize = 0;
    while i < sums.len()
        invariant
            i <= sums@.len(),
            first_at_least_from(sums@, needed as nat, 0) == first_at_least_from(
                sums@,
                needed as nat,
                i as int,
            ),
        decreases sums@.len() - i,
    {
        if sums[i] >= needed {
            return i;
        }
        i = i + 1;
    }
    i
}

/// The sum of all counts.
pub fn total_of(counts: &[u64]) -> (r: u128)
    ensures
        r == running_total(counts@, counts@.len() as int),
{
    let mut total: u128 = 0;
    let mut i: usize = 0;
    while i < counts.len()
        invariant
            i <= counts@.len(),
            total == running_total(counts@, i as int),
            total <= i * (u64::MAX as nat),
        decreases counts@.len() - i,
    {
        total = total + counts[i] as u128;
        i = i + 1;
    }
    total
}

/// The largest index with a nonzero count, or zero if every count is zero.
pub fn last_nonzero_index(counts: &[u64]) -> (r: usize)
    ensures
        r == last_nonzero(counts@, counts@.len() as int),
        counts@.len() > 0 ==> r < counts@.len(),
{
    let mut i: usize = counts.len();
    while i > 0
        invariant
            i <= counts@.len(),
            last_nonzero(counts@, counts@.len() as int) == last_nonzero(counts@, i as int),
            forall|j: int| i <= j < counts@.len() ==> counts@[j] == 0,
        decreases i,
    {
        if counts[i - 1] != 0 {
            return i - 1;
        }
        i = i - 1;
    }
    0
}

} // verus!
