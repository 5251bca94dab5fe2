use vstd::prelude::*;
use vstd::std_specs::convert::FromSpecImpl;
use crate::histogram::bucket::Bucket;
use crate::histogram::config::Config;
use crate::histogram::errors::Error;
use crate::histogram::standard::Histogram;
use crate::histogram::rank::{
    first_reaching, first_reaching_from, first_at_least_from, first_at_least_index, running_total,
    rank_index, total_of, lemma_first_reaching, lemma_first_reaching_is, lemma_running_total_prefix,
};

verus! {

broadcast use {
    crate::histogram::standard::group_histogram_view,
    crate::histogram::bucket::group_bucket_view,
};

/// A bucket index with its count.
pub type Entry = (usize, u64);

/// `out` with the bucket `(idx, n)` appended, unless `n` is zero.
pub open spec fn push_nonzero(out: Seq<Entry>, idx: usize, n: u64) -> Seq<Entry> {
    if n != 0 {
        out.push((idx, n))
    } else {
        out
    }
}

/// Appending a nonzero bucket to `e` and then `m` appends both to `e`.
proof fn lemma_push_nonzero_append(e: Seq<Entry>, idx: usize, n: u64, m: Seq<Entry>)
    ensures
        push_nonzero(e, idx, n) + m == e + (push_nonzero(seq![], idx, n) + m),
{
    if n != 0 {
        assert(e.push((idx, n)) + m =~= e + (seq![(idx, n)] + m));
    } else {
        assert(e + m =~= e + (Seq::<Entry>::empty() + m));
    }
}

/// The entries that `wrapping_add` produces: the two entry lists are merged
/// by index from the front; entries with equal indices are summed (wrapping on
/// overflow), and while both lists last an entry whose count is zero is
/// dropped. Once one list runs out, the rest of the other is appended as is.
pub open spec fn merge_add(a: Seq<Entry>, b: Seq<Entry>) -> Seq<Entry>
    decreases a.len() + b.len(),
{
    if a.len() == 0 {
        b
    } else if b.len() == 0 {
        a
    } else if a[0].0 == b[0].0 {
        push_nonzero(seq![], a[0].0, a[0].1.wrapping_add(b[0].1)) + merge_add(
            a.drop_first(),
            b.drop_first(),
        )
    } else if a[0].0 < b[0].0 {
        push_nonzero(seq![], a[0].0, a[0].1) + merge_add(a.drop_first(), b)
    } else {
        push_nonzero(seq![], b[0].0, b[0].1) + merge_add(a, b.drop_first())
    }
}

/// What `checked_sub` produces: the entry lists are merged by index from the
/// front. An entry of `b` whose index does not occur in `a` (found while `a`
/// lasts, or left over once `a` runs out) is an `InvalidSubset` error; a count
/// of `b` that exceeds the count of `a` at the same index is an `Underflow`
/// error; differences of zero and zero counts of `a` met while `b` lasts are
/// dropped, and once `b` runs out the rest of `a` is appended as is.
pub open spec fn merge_sub(a: Seq<Entry>, b: Seq<Entry>) -> Result<Seq<Entry>, Error>
    decreases a.len() + b.len(),
{
    if b.len() == 0 {
        Ok(a)
    } else if a.len() == 0 {
        Err(Error::InvalidSubset)
    } else if a[0].0 == b[0].0 {
        if a[0].1 < b[0].1 {
            Err(Error::Underflow)
        } else {
            match merge_sub(a.drop_first(), b.drop_first()) {
                Ok(rest) => Ok(
                    push_nonzero(seq![], a[0].0, (a[0].1 - b[0].1) as u64) + rest,
                ),
                Err(e) => Err(e),
            }
        }
    } else if a[0].0 < b[0].0 {
        match merge_sub(a.drop_first(), b) {
            Ok(rest) => Ok(push_nonzero(seq![], a[0].0, a[0].1) + rest),
            Err(e) => Err(e),
        }
    } else {
        Err(Error::InvalidSubset)
    }
}

/// The entries for the nonzero counters of a dense histogram, in index order.
pub open spec fn nonzero_entries(counts: Seq<u64>) -> Seq<Entry>
    decreases counts.len(),
{
    if counts.len() == 0 {
        seq![]
    } else {
        push_nonzero(
            nonzero_entries(counts.drop_last()),
            (counts.len() - 1) as usize,
            counts.last(),
        )
    }
}

/// The counts of the entries, in order.
pub open spec fn entry_counts(e: Seq<Entry>) -> Seq<u64> {
    Seq::new(e.len(), |k: int| e[k].1)
}

/// The sparse and the dense rank searches agree: for a rank of at least
/// one, the running total of the nonzero counters reaches it exactly when
/// that of all counters does, and then at the entry of the same bucket,
/// with the same count. Both forms also hold the same total.
pub proof fn lemma_sparse_rank(c: Seq<u64>, needed: nat)
    requires
        needed >= 1,
        c.len() <= usize::MAX,
    ensures
        ({
            let e = nonzero_entries(c);
            let s = entry_counts(e);
            let kd = first_reaching(c, needed);
            let ks = first_reaching(s, needed);
            &&& running_total(s, s.len() as int) == running_total(c, c.len() as int)
            &&& (ks < s.len() <==> kd < c.len())
            &&& ks < s.len() ==> e[ks as int] == (kd as usize, c[kd as int])
        }),
    decreases c.len(),
{
    let e = nonzero_entries(c);
    let s = entry_counts(e);
    if c.len() == 0 {
        assert(s.len() == 0);
        return;
    }
    let l = c.len() as int;
    let c1 = c.drop_last();
    lemma_sparse_rank(c1, needed);
    let e1 = nonzero_entries(c1);
    let s1 = entry_counts(e1);
    let x = c[l - 1];
    let kd1 = first_reaching(c1, needed);
    let ks1 = first_reaching(s1, needed);
    lemma_first_reaching(c1, needed, 0);
    lemma_first_reaching(s1, needed, 0);
    assert(e == push_nonzero(e1, (l - 1) as usize, x));
    // the running totals of `c` extend those of `c1`
    assert forall|j: int| 0 <= j <= l - 1 implies running_total(c, j) == running_total(c1, j) by {
        lemma_running_total_prefix(c, c1, j);
    }
    assert(running_total(c, l) == running_total(c1, l - 1) + x);
    // and those of `s` extend those of `s1`
    assert forall|j: int| 0 <= j <= s1.len() implies running_total(s, j) == running_total(s1, j) by {
        lemma_running_total_prefix(s, s1, j);
    }
    if x == 0 {
        assert(s =~= s1);
    } else {
        assert(s =~= s1.push(x));
        assert(running_total(s, s1.len() + 1int) == running_total(s1, s1.len() as int) + x);
    }
    if kd1 < l - 1 {
        // the rank is reached among the first counters
        assert forall|j: int| 0 <= j < kd1 implies #[trigger] running_total(c, j + 1) < needed by {
            assert(running_total(c1, j + 1) < needed);
        }
        lemma_first_reaching_is(c, needed, kd1);
        assert forall|j: int| 0 <= j < ks1 implies #[trigger] running_total(s, j + 1) < needed by {
            assert(running_total(s1, j + 1) < needed);
        }
        lemma_first_reaching_is(s, needed, ks1);
        assert(e[ks1 as int] == e1[ks1 as int]);
    } else {
        assert forall|j: int| 0 <= j < l - 1 implies #[trigger] running_total(c, j + 1) < needed by {
            assert(running_total(c1, j + 1) < needed);
        }
        assert forall|j: int| 0 <= j < s1.len() implies #[trigger] running_total(s, j + 1)
            < needed by {
            assert(running_total(s1, j + 1) < needed);
        }
        if l >= 2 {
            assert(running_total(c1, l - 1) < needed) by {
                assert(running_total(c1, (l - 2) + 1) < needed);
            }
        }
        if running_total(c, l) >= needed {
            lemma_first_reaching_is(c, needed, (l - 1) as nat);
            assert(x != 0);
            lemma_first_reaching_is(s, needed, s1.len());
        } else {
            assert forall|j: int| 0 <= j < l implies #[trigger] running_total(c, j + 1)
                < needed by {
                if j < l - 1 {
                    assert(running_total(c1, j + 1) < needed);
                }
            }
            lemma_first_reaching_is(c, needed, l as nat);
            assert forall|j: int| 0 <= j < s.len() implies #[trigger] running_total(s, j + 1)
                < needed by {
                if j < s1.len() {
                    assert(running_total(s1, j + 1) < needed);
                }
            }
            lemma_first_reaching_is(s, needed, s.len());
        }
    }
}

/// The entries for the nonzero counters from index `i` on, in index order.
pub open spec fn nonzero_entries_from(counts: Seq<u64>, i: int) -> Seq<Entry>
    decreases counts.len() - i,
{
    if i < 0 || i >= counts.len() {
        seq![]
    } else {
        push_nonzero(seq![], i as usize, counts[i]) + nonzero_entries_from(counts, i + 1)
    }
}

/// Every entry from index `i` on has an index of at least `i` and a nonzero
/// count.
proof fn lemma_nonzero_entries_from_bounds(counts: Seq<u64>, i: int)
    requires
        0 <= i,
        counts.len() <= usize::MAX,
    ensures
        forall|k: int|
            0 <= k < nonzero_entries_from(counts, i).len() ==> {
                let e = #[trigger] nonzero_entries_from(counts, i)[k];
                &&& i <= e.0 < counts.len()
                &&& e.1 != 0
            },
    decreases counts.len() - i,
{
    if i < counts.len() {
        lemma_nonzero_entries_from_bounds(counts, i + 1);
        let head = push_nonzero(seq![], i as usize, counts[i]);
        let rest = nonzero_entries_from(counts, i + 1);
        assert forall|k: int| 0 <= k < nonzero_entries_from(counts, i).len() implies {
            let e = #[trigger] nonzero_entries_from(counts, i)[k];
            &&& i <= e.0 < counts.len()
            &&& e.1 != 0
        } by {
            if k >= head.len() {
                assert(nonzero_entries_from(counts, i)[k] == rest[k - head.len()]);
            }
        }
    }
}

/// Building the entries from the back and from the front gives the same
/// entries.
proof fn lemma_nonzero_entries_front(counts: Seq<u64>)
    requires
        counts.len() <= usize::MAX,
    ensures
        nonzero_entries(counts) == nonzero_entries_from(counts, 0),
    decreases counts.len(),
{
    if counts.len() > 0 {
        let init = counts.drop_last();
        lemma_nonzero_entries_front(init);
        lemma_nonzero_entries_from_split(counts, 0);
    }
}

/// The entries from `i` on of counts are those of all counts but the last,
/// followed by the entry of the last.
proof fn lemma_nonzero_entries_from_split(counts: Seq<u64>, i: int)
    requires
        0 <= i < counts.len(),
        counts.len() <= usize::MAX,
    ensures
        nonzero_entries_from(counts, i) == nonzero_entries_from(counts.drop_last(), i)
            + push_nonzero(seq![], (counts.len() - 1) as usize, counts.last()),
    decreases counts.len() - i,
{
    let init = counts.drop_last();
    let tail = push_nonzero(seq![], (counts.len() - 1) as usize, counts.last());
    if i == counts.len() - 1 {
        assert(nonzero_entries_from(counts, i + 1) =~= Seq::<Entry>::empty());
        assert(nonzero_entries_from(init, i) =~= Seq::<Entry>::empty());
        assert(nonzero_entries_from(counts, i) =~= Seq::<Entry>::empty() + tail);
    } else {
        lemma_nonzero_entries_from_split(counts, i + 1);
        let head = push_nonzero(seq![], i as usize, counts[i]);
        assert(init[i] == counts[i]);
        assert(nonzero_entries_from(counts, i) =~= head + (nonzero_entries_from(init, i + 1) + tail));
        assert(nonzero_entries_from(init, i) =~= head + nonzero_entries_from(init, i + 1));
    }
}

/// Adding the sparse forms of two histograms with `wrapping_add` gives the
/// sparse form of the sum of their counters (wrapping on overflow): from
/// index `i` on.
proof fn lemma_merge_add_from(a: Seq<u64>, b: Seq<u64>, i: int)
    requires
        a.len() == b.len(),
        a.len() <= usize::MAX,
        0 <= i <= a.len(),
    ensures
        merge_add(nonzero_entries_from(a, i), nonzero_entries_from(b, i))
            == nonzero_entries_from(crate::histogram::standard::counts_wrapping_sum(a, b), i),
    decreases a.len() - i,
{
    let s = crate::histogram::standard::counts_wrapping_sum(a, b);
    let ea = nonzero_entries_from(a, i);
    let eb = nonzero_entries_from(b, i);
    if i == a.len() {
        assert(ea =~= Seq::<Entry>::empty());
        assert(eb =~= Seq::<Entry>::empty());
        assert(nonzero_entries_from(s, i) =~= Seq::<Entry>::empty());
    } else {
        lemma_merge_add_from(a, b, i + 1);
        lemma_nonzero_entries_from_bounds(a, i + 1);
        lemma_nonzero_entries_from_bounds(b, i + 1);
        let ra = nonzero_entries_from(a, i + 1);
        let rb = nonzero_entries_from(b, i + 1);
        assert(s[i] == a[i].wrapping_add(b[i]));
        if a[i] != 0 && b[i] != 0 {
            assert(ea == seq![(i as usize, a[i])] + ra);
            assert(eb == seq![(i as usize, b[i])] + rb);
            assert(ea.drop_first() =~= ra);
            assert(eb.drop_first() =~= rb);
        } else if a[i] != 0 {
            assert(ea == seq![(i as usize, a[i])] + ra);
            assert(eb =~= rb);
            assert(ea.drop_first() =~= ra);
            if rb.len() == 0 {
                assert(merge_add(ra, rb) == ra);
                assert(seq![(i as usize, a[i])] + ra =~= push_nonzero(seq![], i as usize, s[i])
                    + ra);
            } else {
                assert(rb[0].0 > i);
            }
        } else if b[i] != 0 {
            assert(ea =~= ra);
            assert(eb == seq![(i as usize, b[i])] + rb);
            assert(eb.drop_first() =~= rb);
            if ra.len() == 0 {
                assert(merge_add(ra, rb) == rb);
            } else {
                assert(ra[0].0 > i);
            }
        } else {
            assert(ea =~= ra);
            assert(eb =~= rb);
            assert(nonzero_entries_from(s, i) =~= nonzero_entries_from(s, i + 1));
        }
    }
}

/// Adding the sparse forms of two histograms with the same number of
/// counters, as `wrapping_add` does, gives the sparse form of the sum of
/// their counters (wrapping on overflow).
pub proof fn lemma_merge_add_dense(a: Seq<u64>, b: Seq<u64>)
    requires
        a.len() == b.len(),
        a.len() <= usize::MAX,
    ensures
        merge_add(nonzero_entries(a), nonzero_entries(b)) == nonzero_entries(
            crate::histogram::standard::counts_wrapping_sum(a, b),
        ),
{
    lemma_nonzero_entries_front(a);
    lemma_nonzero_entries_front(b);
    lemma_nonzero_entries_front(crate::histogram::standard::counts_wrapping_sum(a, b));
    lemma_merge_add_from(a, b, 0);
}

/// Subtracting sparse forms as `checked_sub` does succeeds when no counter
/// of `b` exceeds that of `a`, and gives the sparse form of the difference:
/// from index `i` on.
proof fn lemma_merge_sub_from(a: Seq<u64>, b: Seq<u64>, i: int)
    requires
        a.len() == b.len(),
        a.len() <= usize::MAX,
        0 <= i <= a.len(),
        crate::histogram::standard::difference_fits(a, b),
    ensures
        merge_sub(nonzero_entries_from(a, i), nonzero_entries_from(b, i)) == Ok::<
            Seq<Entry>,
            Error,
        >(nonzero_entries_from(crate::histogram::standard::counts_difference(a, b), i)),
    decreases a.len() - i,
{
    let d = crate::histogram::standard::counts_difference(a, b);
    let ea = nonzero_entries_from(a, i);
    let eb = nonzero_entries_from(b, i);
    if i == a.len() {
        assert(ea =~= Seq::<Entry>::empty());
        assert(eb =~= Seq::<Entry>::empty());
        assert(nonzero_entries_from(d, i) =~= Seq::<Entry>::empty());
    } else {
        lemma_merge_sub_from(a, b, i + 1);
        lemma_nonzero_entries_from_bounds(a, i + 1);
        lemma_nonzero_entries_from_bounds(b, i + 1);
        let ra = nonzero_entries_from(a, i + 1);
        let rb = nonzero_entries_from(b, i + 1);
        assert(a[i] >= b[i]);
        assert(d[i] == a[i] - b[i]);
        if a[i] != 0 && b[i] != 0 {
            assert(ea == seq![(i as usize, a[i])] + ra);
            assert(eb == seq![(i as usize, b[i])] + rb);
            assert(ea.drop_first() =~= ra);
            assert(eb.drop_first() =~= rb);
        } else if a[i] != 0 {
            assert(ea == seq![(i as usize, a[i])] + ra);
            assert(eb =~= rb);
            assert(ea.drop_first() =~= ra);
            if rb.len() == 0 {
                assert(merge_sub(ra, rb) == Ok::<Seq<Entry>, Error>(ra));
                assert(merge_sub(ea, eb) == Ok::<Seq<Entry>, Error>(ea));
                assert(seq![(i as usize, a[i])] + ra =~= push_nonzero(seq![], i as usize, d[i])
                    + ra);
            } else {
                assert(rb[0].0 > i);
            }
        } else {
            assert(b[i] == 0);
            assert(ea =~= ra);
            assert(eb =~= rb);
            assert(nonzero_entries_from(d, i) =~= nonzero_entries_from(d, i + 1));
        }
    }
}

/// Subtracting the sparse form of a histogram whose counters do not exceed
/// those of another, as `checked_sub` does, succeeds and gives the sparse
/// form of the difference of their counters.
pub proof fn lemma_merge_sub_dense(a: Seq<u64>, b: Seq<u64>)
    requires
        a.len() == b.len(),
        a.len() <= usize::MAX,
        crate::histogram::standard::difference_fits(a, b),
    ensures
        merge_sub(nonzero_entries(a), nonzero_entries(b)) == Ok::<Seq<Entry>, Error>(
            nonzero_entries(crate::histogram::standard::counts_difference(a, b)),
        ),
{
    lemma_nonzero_entries_front(a);
    lemma_nonzero_entries_front(b);
    lemma_nonzero_entries_front(crate::histogram::standard::counts_difference(a, b));
    lemma_merge_sub_from(a, b, 0);
}

/// Entries in the form a sparse histogram keeps them for `len` buckets:
/// indices in increasing order and below `len`, counts nonzero.
pub open spec fn canonical(e: Seq<Entry>, len: nat) -> bool {
    &&& forall|k: int| 0 <= k < e.len() ==> (#[trigger] e[k]).0 < len && e[k].1 != 0
    &&& forall|j: int, k: int| 0 <= j < k < e.len() ==> (#[trigger] e[j]).0 < (#[trigger] e[k]).0
}

/// The count of the entry for bucket `i`, or zero if there is none.
pub open spec fn count_of(e: Seq<Entry>, i: nat) -> u64 {
    if exists|k: int| 0 <= k < e.len() && (#[trigger] e[k]).0 == i {
        e[choose|k: int| 0 <= k < e.len() && (#[trigger] e[k]).0 == i].1
    } else {
        0
    }
}

/// The dense counters of `len` buckets that entries describe.
pub open spec fn dense_of(e: Seq<Entry>, len: nat) -> Seq<u64> {
    Seq::new(len, |i: int| count_of(e, i as nat))
}

/// Entries in sparse form are the nonzero entries of the dense counters
/// they describe.
pub proof fn lemma_dense_of(e: Seq<Entry>, len: nat)
    requires
        canonical(e, len),
        len <= usize::MAX,
    ensures
        nonzero_entries(dense_of(e, len)) == e,
    decreases len,
{
    let d = dense_of(e, len);
    if len == 0 {
        if e.len() > 0 {
            assert(e[0].0 < len);
        }
        assert(e =~= Seq::<Entry>::empty());
        return;
    }
    let last = (len - 1) as nat;
    let ends_here = e.len() > 0 && e.last().0 == last;
    let e1 = if ends_here {
        e.drop_last()
    } else {
        e
    };
    assert forall|k: int| 0 <= k < e1.len() implies (#[trigger] e1[k]).0 < last by {
        if ends_here {
            assert(e[k].0 < e[e.len() - 1].0);
        } else {
            assert(e[k].0 < len);
            if e[k].0 == last && e.len() > 0 && k < e.len() - 1 {
                assert(e[k].0 < e[e.len() - 1].0);
                assert(e[e.len() - 1].0 < len);
            }
        }
    }
    assert(canonical(e1, last));
    lemma_dense_of(e1, last);
    // the counters of the other buckets are those that `e1` describes
    assert forall|i: int| 0 <= i < last implies count_of(e1, i as nat) == #[trigger] d[i] by {
        if exists|k: int| 0 <= k < e.len() && (#[trigger] e[k]).0 == i {
            let k = choose|k: int| 0 <= k < e.len() && (#[trigger] e[k]).0 == i;
            assert(k < e1.len()) by {
                if ends_here && k == e.len() - 1 {
                    assert(e[k].0 == last);
                }
            }
            assert(e1[k].0 == i);
            let k1 = choose|k: int| 0 <= k < e1.len() && (#[trigger] e1[k]).0 == i;
            if k1 != k {
                if k1 < k {
                    assert(e[k1].0 < e[k].0);
                } else {
                    assert(e[k].0 < e[k1].0);
                }
            }
        } else {
            if exists|k: int| 0 <= k < e1.len() && (#[trigger] e1[k]).0 == i {
                let k1 = choose|k: int| 0 <= k < e1.len() && (#[trigger] e1[k]).0 == i;
                assert(e[k1].0 == i);
            }
        }
    }
    assert(d.drop_last() =~= dense_of(e1, last));
    if ends_here {
        let k = e.len() - 1;
        assert(e[k].0 == last);
        let kc = choose|j: int| 0 <= j < e.len() && (#[trigger] e[j]).0 == last;
        if kc != k {
            assert(e[kc].0 < e[k].0);
        }
        assert(d[last as int] == e[k].1);
        assert(e1.push(e[k]) =~= e);
    } else {
        assert(d[last as int] == 0) by {
            if exists|j: int| 0 <= j < e.len() && (#[trigger] e[j]).0 == last {
                let j = choose|j: int| 0 <= j < e.len() && (#[trigger] e[j]).0 == last;
                if j < e.len() - 1 {
                    assert(e[j].0 < e[e.len() - 1].0);
                    assert(e[e.len() - 1].0 < len);
                }
            }
        }
    }
}

/// Subtracting undoes adding for sparse histograms: entries in sparse form
/// plus others, as `wrapping_add` merges them, minus those others, as
/// `checked_sub` merges them, are the first entries again, when no shared
/// bucket's sum overflows.
pub proof fn lemma_sparse_sub_undoes_add(x: Seq<Entry>, y: Seq<Entry>, len: nat)
    requires
        canonical(x, len),
        canonical(y, len),
        len <= usize::MAX,
        crate::histogram::standard::sum_fits(dense_of(x, len), dense_of(y, len)),
    ensures
        merge_sub(merge_add(x, y), y) == Ok::<Seq<Entry>, Error>(x),
{
    let a = dense_of(x, len);
    let b = dense_of(y, len);
    lemma_dense_of(x, len);
    lemma_dense_of(y, len);
    lemma_merge_add_dense(a, b);
    let sum = crate::histogram::standard::counts_sum(a, b);
    assert(crate::histogram::standard::counts_wrapping_sum(a, b) =~= sum);
    crate::histogram::standard::lemma_sub_undoes_add(a, b);
    lemma_merge_sub_dense(sum, b);
}

/// The state of `downsample` after the first `k` entries: the buckets sealed
/// so far, and the index and (unbounded) count of the bucket being
/// aggregated. Each entry maps to the new bucket of the lower bound of its
/// old bucket; consecutive entries that map to the same new bucket are
/// aggregated, and an aggregate is sealed (unless its count is zero) when an
/// entry maps elsewhere. The aggregate starts as bucket zero with count zero.
pub open spec fn downsample_state(old: Config, new: Config, e: Seq<Entry>, k: nat) -> (
    Seq<Entry>,
    nat,
    int,
)
    decreases k,
{
    if k == 0 {
        (seq![], 0, 0)
    } else {
        let prev = downsample_state(old, new, e, (k - 1) as nat);
        let ni = new.spec_index(old.spec_lower(e[k - 1].0 as nat));
        if ni == prev.1 {
            (prev.0, prev.1, prev.2 + e[k - 1].1)
        } else {
            (push_nonzero(prev.0, prev.1 as usize, prev.2 as u64), ni, e[k - 1].1 as int)
        }
    }
}

/// Every aggregate that `downsample` forms fits a `u64`.
pub open spec fn downsample_fits(old: Config, new: Config, e: Seq<Entry>) -> bool {
    forall|k: nat| k <= e.len() ==> #[trigger] downsample_state(old, new, e, k).2 <= u64::MAX
}

/// The entries that `downsample` produces: the sealed buckets and the final
/// aggregate, unless its count is zero.
pub open spec fn downsample_entries(old: Config, new: Config, e: Seq<Entry>) -> Seq<Entry> {
    let s = downsample_state(old, new, e, e.len());
    push_nonzero(s.0, s.1 as usize, s.2 as u64)
}

/// The sum of the counts of the entries.
pub open spec fn entries_total(e: Seq<Entry>) -> nat
    decreases e.len(),
{
    if e.len() == 0 {
        0
    } else {
        entries_total(e.drop_last()) + e.last().1 as nat
    }
}

/// Appending a bucket, unless its count is zero, adds its count to the
/// total.
proof fn lemma_total_push_nonzero(e: Seq<Entry>, idx: usize, n: u64)
    ensures
        entries_total(push_nonzero(e, idx, n)) == entries_total(e) + n,
{
    if n != 0 {
        assert(e.push((idx, n)).drop_last() =~= e);
    }
}

/// After the first `k` entries, the sealed buckets and the aggregate hold
/// the total of those entries.
proof fn lemma_downsample_state_total(old: Config, new: Config, e: Seq<Entry>, k: nat)
    requires
        k <= e.len(),
        downsample_fits(old, new, e),
    ensures
        downsample_state(old, new, e, k).2 >= 0,
        entries_total(downsample_state(old, new, e, k).0) + downsample_state(old, new, e, k).2
            == entries_total(e.take(k as int)),
    decreases k,
{
    if k == 0 {
        assert(e.take(0) =~= Seq::<Entry>::empty());
    } else {
        let prev = downsample_state(old, new, e, (k - 1) as nat);
        lemma_downsample_state_total(old, new, e, (k - 1) as nat);
        assert(e.take(k as int).drop_last() =~= e.take(k - 1));
        assert(downsample_state(old, new, e, (k - 1) as nat).2 <= u64::MAX);
        lemma_total_push_nonzero(prev.0, prev.1 as usize, prev.2 as u64);
    }
}

/// Downsampling keeps the total count: the buckets it produces hold as many
/// observations as the entries it was given.
pub proof fn lemma_downsample_total(old: Config, new: Config, e: Seq<Entry>)
    requires
        downsample_fits(old, new, e),
    ensures
        entries_total(downsample_entries(old, new, e)) == entries_total(e),
{
    let s = downsample_state(old, new, e, e.len());
    lemma_downsample_state_total(old, new, e, e.len());
    assert(e.take(e.len() as int) =~= e);
    assert(downsample_state(old, new, e, e.len()).2 <= u64::MAX);
    lemma_total_push_nonzero(s.0, s.1 as usize, s.2 as u64);
}

/// This histogram is a sparse, columnar representation of the regular
/// Histogram. It is significantly smaller than a regular Histogram when a large
/// number of buckets are zero, which is a frequent occurence. It stores an
/// individual vector for each field of non-zero buckets. Assuming
/// `index[0] = n`, `(index[0], count[0])` corresponds to the nth bucket.
#[derive(Clone, Debug, PartialEq)]
pub struct SparseHistogram {
    /// parameters representing the resolution and the range of
    /// the histogram tracking request latencies
    pub config: Config,
    /// indices for the non-zero buckets in the histogram
    pub index: Vec<usize>,
    /// histogram bucket counts corresponding to the indices
    pub count: Vec<u64>,
}

/// The pairs `(index[i], count[i])` of two vectors of the same length.
pub open spec fn zip_entries(index: Seq<usize>, count: Seq<u64>) -> Seq<Entry> {
    Seq::new(index.len(), |i: int| (index[i], count[i]))
}

impl SparseHistogram {
    /// The buckets as `(index, count)` pairs.
    pub open spec fn entries(&self) -> Seq<Entry> {
        zip_entries(self.index@, self.count@)
    }

    /// The index and count vectors have the same length.
    pub open spec fn wf(&self) -> bool {
        self.index@.len() == self.count@.len()
    }

    /// Construct a new histogram from the provided parameters. See the
    /// documentation for [`crate::histogram::Config`] to understand their
    /// meaning.
    pub fn new(grouping_power: u8, max_value_power: u8) -> (r: Result<Self, Error>)
        requires
            crate::histogram::config::valid_params(0, grouping_power as nat, max_value_power as nat)
                ==> crate::histogram::config::params_fit(
                0,
                grouping_power as nat,
                max_value_power as nat,
            ),
        ensures
            match r {
                Ok(h) => {
                    &&& crate::histogram::config::valid_params(
                        0,
                        grouping_power as nat,
                        max_value_power as nat,
                    )
                    &&& h.config.wf()
                    &&& h.config.linear_power() == 0
                    &&& h.config.spec_grouping_power() == grouping_power
                    &&& h.config.spec_max_value_power() == max_value_power
                    &&& h.wf()
                    &&& h.entries().len() == 0
                },
                Err(e) => {
                    ||| (max_value_power > 64 && e == Error::MaxPowerTooHigh)
                    ||| (max_value_power <= 64 && grouping_power >= max_value_power && e
                        == Error::MaxPowerTooLow)
                },
            },
    {
        let config = Config::new(grouping_power, max_value_power)?;
        Ok(Self::with_config(&config))
    }

    /// Creates a new, empty histogram using a provided
    /// [`crate::histogram::Config`].
    pub fn with_config(config: &Config) -> (r: Self)
        ensures
            r.config == *config,
            r.wf(),
            r.entries().len() == 0,
    {
        Self { config: *config, index: Vec::new(), count: Vec::new() }
    }

    /// Helper function to store a bucket in the histogram.
    fn add_bucket(&mut self, idx: usize, n: u64)
        requires
            old(self).wf(),
        ensures
            final(self).wf(),
            final(self).config == old(self).config,
            final(self).entries() == push_nonzero(old(self).entries(), idx, n),
    {
        if n != 0 {
            self.index.push(idx);
            self.count.push(n);
        }
        assert(self.entries() =~= push_nonzero(old(self).entries(), idx, n));
    }

    /// Appends the entries `i..` of `h` as they are.
    fn append_rest(&mut self, h: &SparseHistogram, i: usize)
        requires
            old(self).wf(),
            h.wf(),
            i <= h.index@.len(),
        ensures
            final(self).wf(),
            final(self).config == old(self).config,
            final(self).entries() == old(self).entries() + h.entries().subrange(
                i as int,
                h.entries().len() as int,
            ),
    {
        let mut k = i;
        while k < h.index.len()
            invariant
                i <= k <= h.index@.len(),
                h.wf(),
                self.wf(),
                self.config == old(self).config,
                self.entries() == old(self).entries() + h.entries().subrange(i as int, k as int),
            decreases h.index@.len() - k,
        {
            let ghost prev = self.entries();
            let ghost prev_index = self.index@;
            let ghost prev_count = self.count@;
            self.index.push(h.index[k]);
            self.count.push(h.count[k]);
            assert(self.index@ == prev_index.push(h.index@[k as int]));
            assert(self.count@ == prev_count.push(h.count@[k as int]));
            assert(self.entries() =~= prev.push(h.entries()[k as int]));
            assert(h.entries().subrange(i as int, k + 1) =~= h.entries().subrange(
                i as int,
                k as int,
            ).push(h.entries()[k as int]));
            assert(self.entries() =~= old(self).entries() + h.entries().subrange(
                i as int,
                k + 1,
            ));
            k = k + 1;
        }
    }

    /// Adds the other histogram to this histogram and returns the result as a
    /// new histogram.
    ///
    /// An error is returned if the two histograms have incompatible parameters.
    /// Buckets which have values in both histograms are allowed to wrap.
    pub fn wrapping_add(&self, h: &SparseHistogram) -> (r: Result<SparseHistogram, Error>)
        requires
            self.wf(),
            h.wf(),
        ensures
            match r {
                Ok(s) => {
                    &&& self.config == h.config
                    &&& s.config == self.config
                    &&& s.wf()
                    &&& s.entries() == merge_add(self.entries(), h.entries())
                },
                Err(e) => self.config != h.config && e == Error::IncompatibleParameters,
            },
    {
        if self.config != h.config {
            return Err(Error::IncompatibleParameters);
        }
        let mut histogram = SparseHistogram::with_config(&self.config);
        let ghost a = self.entries();
        let ghost b = h.entries();
        let mut i: usize = 0;
        let mut j: usize = 0;
        assert(a.subrange(0, a.len() as int) =~= a);
        assert(b.subrange(0, b.len() as int) =~= b);
        assert(histogram.entries() + merge_add(a, b) =~= merge_add(a, b));
        while i < self.index.len() && j < h.index.len()
            invariant
                self.wf(),
                h.wf(),
                a == self.entries(),
                b == h.entries(),
                i <= a.len(),
                j <= b.len(),
                histogram.wf(),
                histogram.config == self.config,
                histogram.entries() + merge_add(
                    a.subrange(i as int, a.len() as int),
                    b.subrange(j as int, b.len() as int),
                ) == merge_add(a, b),
            decreases a.len() + b.len() - i - j,
        {
            let ghost ra = a.subrange(i as int, a.len() as int);
            let ghost rb = b.subrange(j as int, b.len() as int);
            let ghost before = histogram.entries();
            assert(ra.drop_first() =~= a.subrange(i + 1, a.len() as int));
            assert(rb.drop_first() =~= b.subrange(j + 1, b.len() as int));
            let k1 = self.index[i];
            let v1 = self.count[i];
            let k2 = h.index[j];
            let v2 = h.count[j];
            assert(ra[0] == (k1, v1));
            assert(rb[0] == (k2, v2));
            if k1 == k2 {
                histogram.add_bucket(k1, v1.wrapping_add(v2));
                proof {
                    lemma_push_nonzero_append(
                        before,
                        k1,
                        v1.wrapping_add(v2),
                        merge_add(ra.drop_first(), rb.drop_first()),
                    );
                }
                i = i + 1;
                j = j + 1;
            } else if k1 < k2 {
                histogram.add_bucket(k1, v1);
                proof {
                    lemma_push_nonzero_append(before, k1, v1, merge_add(ra.drop_first(), rb));
                }
                i = i + 1;
            } else {
                histogram.add_bucket(k2, v2);
                proof {
                    lemma_push_nonzero_append(before, k2, v2, merge_add(ra, rb.drop_first()));
                }
                j = j + 1;
            }
        }
        // Fill remaining values, if any, from the left histogram
        if i < self.index.len() {
            proof {
                assert(b.subrange(j as int, b.len() as int).len() == 0);
            }
            histogram.append_rest(self, i);
        }
        // Fill remaining values, if any, from the right histogram
        if j < h.index.len() {
            proof {
                assert(a.subrange(i as int, a.len() as int).len() == 0);
            }
            histogram.append_rest(h, j);
        }
        proof {
            if i >= a.len() && j >= b.len() {
                assert(a.subrange(i as int, a.len() as int) =~= Seq::<Entry>::empty());
            }
        }
        Ok(histogram)
    }

    /// Subtracts the other histogram from this histogram and returns the
    /// result as a new histogram. The other histogram is expected to be a
    /// subset of the current histogram, i.e., every bucket in the other
    /// histogram should have a count less than or equal to the corresponding
    /// bucket in this histogram.
    ///
    /// An error is returned if the two histograms have incompatible parameters
    /// or if the other histogram is not a subset of this histogram.
    pub fn checked_sub(&self, h: &SparseHistogram) -> (r: Result<SparseHistogram, Error>)
        requires
            self.wf(),
            h.wf(),
        ensures
            self.config != h.config ==> r == Err::<SparseHistogram, Error>(
                Error::IncompatibleParameters,
            ),
            self.config == h.config ==> match (r, merge_sub(self.entries(), h.entries())) {
                (Ok(s), Ok(e)) => s.config == self.config && s.wf() && s.entries() == e,
                (Err(x), Err(y)) => x == y,
                _ => false,
            },
    {
        if self.config != h.config {
            return Err(Error::IncompatibleParameters);
        }
        let mut histogram = SparseHistogram::with_config(&self.config);
        let ghost a = self.entries();
        let ghost b = h.entries();
        let mut i: usize = 0;
        let mut j: usize = 0;
        assert(a.subrange(0, a.len() as int) =~= a);
        assert(b.subrange(0, b.len() as int) =~= b);
        while i < self.index.len() && j < h.index.len()
            invariant
                self.wf(),
                h.wf(),
                a == self.entries(),
                b == h.entries(),
                i <= a.len(),
                j <= b.len(),
                histogram.wf(),
                histogram.config == self.config,
                self.config == h.config,
                match (
                    merge_sub(a.subrange(i as int, a.len() as int), b.subrange(j as int, b.len() as int)),
                    merge_sub(a, b),
                ) {
                    (Ok(rest), Ok(all)) => histogram.entries() + rest == all,
                    (Err(x), Err(y)) => x == y,
                    _ => false,
                },
            decreases a.len() + b.len() - i - j,
        {
            let ghost ra = a.subrange(i as int, a.len() as int);
            let ghost rb = b.subrange(j as int, b.len() as int);
            let ghost before = histogram.entries();
            assert(ra.drop_first() =~= a.subrange(i + 1, a.len() as int));
            assert(rb.drop_first() =~= b.subrange(j + 1, b.len() as int));
            let k1 = self.index[i];
            let v1 = self.count[i];
            let k2 = h.index[j];
            let v2 = h.count[j];
            assert(ra[0] == (k1, v1));
            assert(rb[0] == (k2, v2));
            if k1 == k2 {
                let v = match v1.checked_sub(v2) {
                    Some(v) => v,
                    None => return Err(Error::Underflow),
                };
                if v != 0 {
                    histogram.add_bucket(k1, v);
                }
                proof {
                    if let Ok(rest) = merge_sub(ra.drop_first(), rb.drop_first()) {
                        lemma_push_nonzero_append(before, k1, v, rest);
                    }
                }
                i = i + 1;
                j = j + 1;
            } else if k1 < k2 {
                histogram.add_bucket(k1, v1);
                proof {
                    if let Ok(rest) = merge_sub(ra.drop_first(), rb) {
                        lemma_push_nonzero_append(before, k1, v1, rest);
                    }
                }
                i = i + 1;
            } else {
                // The other histogram has a bucket not present in this
                // histogram, i.e., it is not a subset of this histogram
                return Err(Error::InvalidSubset);
            }
        }
        // Check that the subset histogram has been consumed
        if j < h.index.len() {
            return Err(Error::InvalidSubset);
        }
        // Fill remaining buckets, if any, from the superset histogram
        proof {
            assert(b.subrange(j as int, b.len() as int).len() == 0);
        }
        if i < self.index.len() {
            histogram.append_rest(self, i);
        } else {
            assert(a.subrange(i as int, a.len() as int) =~= Seq::<Entry>::empty());
            assert(histogram.entries() + Seq::<Entry>::empty() =~= histogram.entries());
        }
        Ok(histogram)
    }

    /// Returns a new histogram with a reduced grouping power. The reduced
    /// grouping power should lie in the range (0..existing grouping power).
    ///
    /// This works by iterating over every bucket in the existing histogram and
    /// inserting the contained values into the new histogram. While we do not
    /// know the exact values of the data points (only that they lie within the
    /// bucket's range), it does not matter since the bucket is not split
    /// during downsampling and any value can be used.
    pub fn downsample(&self, grouping_power: u8) -> (r: Result<SparseHistogram, Error>)
        requires
            self.wf(),
            self.config.wf(),
            forall|k: int| 0 <= k < self.index@.len() ==> #[trigger] self.index@[k] < self.config.spec_total_bins(),
            crate::histogram::config::valid_params(
                0,
                grouping_power as nat,
                self.config.spec_max_value_power(),
            ) ==> crate::histogram::config::params_fit(
                0,
                grouping_power as nat,
                self.config.spec_max_value_power(),
            ),
            grouping_power < self.config.spec_grouping_power() ==> ({
                let new = Config::spec_of(0, grouping_power as nat, self.config.spec_max_value_power());
                downsample_fits(self.config, new, self.entries())
            }),
        ensures
            match r {
                Ok(s) => {
                    let new = Config::spec_of(0, grouping_power as nat, self.config.spec_max_value_power());
                    &&& grouping_power < self.config.spec_grouping_power()
                    &&& s.config == new
                    &&& s.config.wf()
                    &&& s.wf()
                    &&& s.entries() == downsample_entries(self.config, new, self.entries())
                },
                Err(e) => grouping_power >= self.config.spec_grouping_power() && e
                    == Error::MaxPowerTooLow,
            },
    {
        if grouping_power >= self.config.grouping_power() {
            return Err(Error::MaxPowerTooLow);
        }
        proof {
            self.config.lemma_wf();
        }
        let config = match Config::new(grouping_power, self.config.max_value_power()) {
            Ok(c) => c,
            Err(e) => return Err(e),
        };
        proof {
            Config::lemma_spec_of(config);
        }
        let mut histogram = SparseHistogram::with_config(&config);
        let ghost e = self.entries();
        // Multiple buckets in the old histogram will map to the same bucket
        // in the new histogram, so we have to aggregate bucket values from the
        // old histogram before inserting a bucket into the new downsampled
        // histogram. However, mappings between the histograms monotonically
        // increase, so once a bucket in the old histogram maps to a higher
        // bucket in the new histogram than is currently being aggregated,
        // the bucket can be sealed and inserted into the new histogram.
        let mut aggregating_idx: usize = 0;
        let mut aggregating_count: u64 = 0;
        let mut k: usize = 0;
        while k < self.index.len()
            invariant
                self.wf(),
                self.config.wf(),
                config.wf(),
                e == self.entries(),
                k <= e.len(),
                forall|m: int| 0 <= m < self.index@.len() ==> #[trigger] self.index@[m] < self.config.spec_total_bins(),
                config.spec_max_value_power() == self.config.spec_max_value_power(),
                downsample_fits(self.config, config, e),
                histogram.wf(),
                histogram.config == config,
                ({
                    let st = downsample_state(self.config, config, e, k as nat);
                    &&& histogram.entries() == st.0
                    &&& aggregating_idx == st.1
                    &&& aggregating_count == st.2
                }),
            decreases e.len() - k,
        {
            let idx = self.index[k];
            let n = self.count[k];
            proof {
                self.config.lemma_wf();
                crate::histogram::config::lemma_lower_bound_in_bucket(
                    self.config.linear_power(),
                    self.config.spec_grouping_power(),
                    self.config.spec_max_value_power(),
                    idx as nat,
                );
                assert(downsample_state(self.config, config, e, (k + 1) as nat).2 <= u64::MAX);
            }
            let lower = self.config.index_to_lower_bound(idx);
            let new_idx = match config.value_to_index(lower) {
                Ok(i) => i,
                Err(err) => return Err(err),
            };
            // If it maps to the currently aggregating bucket, merge counts
            if new_idx == aggregating_idx {
                aggregating_count = aggregating_count + n;
            } else {
                // Does not map to the aggregating bucket, so seal and store that bucket
                histogram.add_bucket(aggregating_idx, aggregating_count);
                // Start tracking this bucket as the current aggregating bucket
                aggregating_idx = new_idx;
                aggregating_count = n;
            }
            k = k + 1;
        }
        // Add the final aggregated bucket
        histogram.add_bucket(aggregating_idx, aggregating_count);
        Ok(histogram)
    }

    /// The sparse histogram of the nonzero buckets of a histogram.
    pub fn from_histogram(histogram: &Histogram) -> (r: SparseHistogram)
        ensures
            r.config == histogram.spec_config(),
            r.wf(),
            r.entries() == nonzero_entries(histogram.counts()),
    {
        let mut r = SparseHistogram::with_config(&histogram.config);
        let counts = histogram.as_slice();
        let mut i: usize = 0;
        while i < counts.len()
            invariant
                i <= counts@.len(),
                counts@ == histogram.counts(),
                r.wf(),
                r.config == histogram.config,
                r.entries() == nonzero_entries(counts@.take(i as int)),
            decreases counts@.len() - i,
        {
            assert(counts@.take(i + 1).drop_last() =~= counts@.take(i as int));
            r.add_bucket(i, counts[i]);
            i = i + 1;
        }
        assert(counts@.take(i as int) =~= counts@);
        r
    }

    /// The bucket, with its count, of the first entry at which the running
    /// total of the counts, in entry order, reaches `needed`, or `None` if the
    /// total of all counts is smaller. This is the bucket of the percentile
    /// whose rank `ceil(p / 100 * total)` is `needed`.
    pub fn bucket_for_rank(&self, needed: u128) -> (r: Option<Bucket>)
        requires
            self.wf(),
            self.config.wf(),
            forall|k: int|
                0 <= k < self.index@.len() ==> #[trigger] self.index@[k]
                    < self.config.spec_total_bins(),
        ensures
            ({
                let k = first_reaching(self.count@, needed as nat);
                if k < self.count@.len() {
                    r == Some(
                        crate::histogram::standard::bucket_at(
                            self.config,
                            self.index@[k as int] as int,
                            self.count@[k as int],
                        ),
                    )
                } else {
                    r is None
                }
            }),
    {
        let k = rank_index(self.count.as_slice(), needed);
        if k < self.count.len() {
            let idx = self.index[k];
            Some(
                Bucket {
                    count: self.count[k],
                    lower: self.config.index_to_lower_bound(idx),
                    upper: self.config.index_to_upper_bound(idx),
                },
            )
        } else {
            None
        }
    }

    /// The sum of all counts.
    pub fn total_count(&self) -> (r: u128)
        ensures
            r == running_total(self.count@, self.count@.len() as int),
    {
        total_of(self.count.as_slice())
    }

    /// An iterator across the buckets of the histogram, in the order in which
    /// they are stored.
    pub fn iter(&self) -> (r: Iter<'_>)
        ensures
            r.spec_index() == 0,
            r.spec_histogram() == *self,
    {
        Iter { index: 0, histogram: self }
    }
}

/// An iterator across the histogram buckets.
pub struct Iter<'a> {
    index: usize,
    histogram: &'a SparseHistogram,
}

impl<'a> Iter<'a> {
    /// The position of the next entry.
    pub closed spec fn spec_index(&self) -> nat {
        self.index as nat
    }

    /// The histogram that is iterated over.
    pub closed spec fn spec_histogram(&self) -> SparseHistogram {
        *self.histogram
    }

    /// Returns the bucket of the next entry with its count and range, or
    /// `None` once all entries have been returned.
    pub fn next(&mut self) -> (r: Option<Bucket>)
        requires
            old(self).spec_histogram().wf(),
            old(self).spec_histogram().config.wf(),
            forall|k: int|
                0 <= k < old(self).spec_histogram().index@.len() ==> #[trigger] old(
                    self,
                ).spec_histogram().index@[k] < old(self).spec_histogram().config.spec_total_bins(),
        ensures
            final(self).spec_histogram() == old(self).spec_histogram(),
            ({
                let h = old(self).spec_histogram();
                let i = old(self).spec_index();
                if i < h.index@.len() {
                    &&& r == Some(
                        crate::histogram::standard::bucket_at(
                            h.config,
                            h.index@[i as int] as int,
                            h.count@[i as int],
                        ),
                    )
                    &&& final(self).spec_index() == i + 1
                } else {
                    &&& r is None
                    &&& final(self).spec_index() == i
                }
            }),
    {
        if self.index >= self.histogram.index.len() {
            return None;
        }
        let idx = self.histogram.index[self.index];
        let bucket = Bucket {
            count: self.histogram.count[self.index],
            lower: self.histogram.config.index_to_lower_bound(idx),
            upper: self.histogram.config.index_to_upper_bound(idx),
        };
        self.index = self.index + 1;
        Some(bucket)
    }
}

impl From<&Histogram> for SparseHistogram {
    fn from(histogram: &Histogram) -> (r: Self) {
        Self::from_histogram(histogram)
    }
}

impl FromSpecImpl<&Histogram> for SparseHistogram {
    /// Verified callers use `from_histogram`, whose contract states the
    /// result.
    open spec fn obeys_from_spec() -> bool {
        false
    }

    open spec fn from_spec(v: &Histogram) -> SparseHistogram {
        arbitrary()
    }
}

/// The sum of the counts `s[0..=i]`.
pub open spec fn prefix_sum(s: Seq<u64>, i: int) -> nat
    decreases i,
{
    if i <= 0 {
        s[0] as nat
    } else {
        prefix_sum(s, i - 1) + s[i] as nat
    }
}

/// The running sum of the first `i + 1` counts is the running total that
/// ends at index `i`.
proof fn lemma_prefix_sum_is_running_total(count: Seq<u64>, i: int)
    requires
        0 <= i < count.len(),
    ensures
        prefix_sum(count, i) == running_total(count, i + 1),
    decreases i,
{
    if i > 0 {
        lemma_prefix_sum_is_running_total(count, i - 1);
    } else {
        assert(running_total(count, 0) == 0);
    }
}

/// Searching the running sums of counts whose running sums all fit a `u64`
/// for the first one that is at least a rank finds the same index as
/// searching the counts for the first index at which their running total
/// reaches it: a read-only histogram answers a rank as its sparse histogram
/// does.
pub proof fn lemma_rank_in_running_sums(count: Seq<u64>, needed: nat)
    requires
        sums_fit(count),
    ensures
        first_at_least_from(running_sums(count), needed, 0) == first_reaching(count, needed),
{
    lemma_rank_in_running_sums_from(count, needed, 0);
}

proof fn lemma_rank_in_running_sums_from(count: Seq<u64>, needed: nat, i: int)
    requires
        sums_fit(count),
        0 <= i <= count.len(),
    ensures
        first_at_least_from(running_sums(count), needed, i) == first_reaching_from(
            count,
            needed,
            i,
        ),
    decreases count.len() - i,
{
    if i < count.len() {
        lemma_prefix_sum_is_running_total(count, i);
        assert(prefix_sum(count, i) <= u64::MAX);
        lemma_rank_in_running_sums_from(count, needed, i + 1);
    }
}

/// Every running sum of the counts fits a `u64`.
pub open spec fn sums_fit(count: Seq<u64>) -> bool {
    forall|i: int| 0 <= i < count.len() ==> #[trigger] prefix_sum(count, i) <= u64::MAX
}

/// The running sums of the counts.
pub open spec fn running_sums(count: Seq<u64>) -> Seq<u64> {
    Seq::new(count.len(), |i: int| prefix_sum(count, i) as u64)
}

/// The differences of consecutive running sums (the first one taken as is),
/// wrapping on underflow.
pub open spec fn differences(cumulative: Seq<u64>) -> Seq<u64> {
    Seq::new(
        cumulative.len(),
        |i: int|
            if i == 0 {
                cumulative[0]
            } else {
                cumulative[i].wrapping_sub(cumulative[i - 1])
            },
    )
}

/// Taking the running sums of counts whose running sums all fit a `u64`,
/// and then their differences, gives the counts back.
pub proof fn lemma_differences_of_running_sums(count: Seq<u64>)
    requires
        sums_fit(count),
    ensures
        differences(running_sums(count)) == count,
{
    let r = running_sums(count);
    assert forall|i: int| 0 <= i < count.len() implies #[trigger] differences(r)[i] == count[i] by {
        assert(prefix_sum(count, i) <= u64::MAX);
        if i > 0 {
            assert(prefix_sum(count, i - 1) <= u64::MAX);
        }
    }
    assert(differences(r) =~= count);
}

/// The state after `count_to_cumulative` stopped at the first offset `m`
/// whose running sum overflowed: the running sums before it, the wrapped sum
/// at it, and the counts after it unchanged.
pub open spec fn cumulative_stopped(old: Seq<u64>, new: Seq<u64>, m: int) -> bool {
    &&& 1 <= m < old.len()
    &&& new.len() == old.len()
    &&& prefix_sum(old, m) > u64::MAX
    &&& forall|i: int|
        #![trigger new[i]]
        #![trigger prefix_sum(old, i)]
        0 <= i < m ==> prefix_sum(old, i) <= u64::MAX && new[i] == prefix_sum(old, i)
    &&& new[m] == old[m].wrapping_add(new[m - 1])
    &&& forall|i: int| m < i < old.len() ==> #[trigger] new[i] == old[i]
}

/// Turns counts into running sums in place. Returns `Overflow`, leaving the
/// vector as `cumulative_stopped` describes, if a running sum overflows.
fn count_to_cumulative(count: &mut Vec<u64>) -> (r: Result<(), Error>)
    ensures
        final(count)@.len() == old(count)@.len(),
        r is Ok <==> sums_fit(old(count)@),
        r is Ok ==> final(count)@ == running_sums(old(count)@),
        r is Err ==> r == Err::<(), Error>(Error::Overflow) && exists|m: int|
            cumulative_stopped(old(count)@, final(count)@, m),
{
    let ghost orig = count@;
    let mut offset: usize = 1;
    let mut overflowed: bool = false;
    while offset < count.len() && !overflowed
        invariant
            count@.len() == orig.len(),
            1 <= offset,
            offset <= count@.len() || count@.len() == 0,
            overflowed ==> cumulative_stopped(orig, count@, offset as int),
            !overflowed ==> forall|i: int|
                #![trigger count@[i]]
                #![trigger prefix_sum(orig, i)]
                0 <= i < offset && i < orig.len() ==> prefix_sum(orig, i) <= u64::MAX
                    && count@[i] == prefix_sum(orig, i),
            !overflowed ==> forall|i: int| offset <= i < orig.len() ==> #[trigger] count@[i] == orig[i],
        decreases count@.len() - offset, if overflowed { 0int } else { 1int },
    {
        let prev = count[offset - 1];
        let next = count[offset].wrapping_add(prev);
        assert(count@[offset as int] == orig[offset as int]);
        assert(prev == prefix_sum(orig, offset - 1));
        assert(prefix_sum(orig, offset as int) == prev + orig[offset as int]);
        let ghost before = count@;
        count.set(offset, next);
        assert forall|i: int|
            #![trigger count@[i]]
            #![trigger prefix_sum(orig, i)]
            0 <= i < offset implies prefix_sum(orig, i) <= u64::MAX && count@[i] == prefix_sum(
                orig,
                i,
            ) by {
            assert(count@[i] == before[i]);
        }
        assert forall|i: int| offset < i < orig.len() implies #[trigger] count@[i] == orig[i] by {
            assert(count@[i] == before[i]);
        }
        if next < prev {
            assert(cumulative_stopped(orig, count@, offset as int));
            overflowed = true;
        } else {
            assert(count@[offset as int] == prefix_sum(orig, offset as int));
            offset = offset + 1;
        }
    }
    if overflowed {
        assert(!sums_fit(orig)) by {
            assert(prefix_sum(orig, offset as int) > u64::MAX);
        }
        Err(Error::Overflow)
    } else {
        assert(count@ =~= running_sums(orig));
        Ok(())
    }
}

/// Turns running sums back into counts in place, wrapping on underflow.
fn cumulative_to_count(cumulative: &mut Vec<u64>)
    ensures
        final(cumulative)@ == differences(old(cumulative)@),
{
    let ghost orig = cumulative@;
    let mut offset: usize = cumulative.len();
    while offset > 1
        invariant
            cumulative@.len() == orig.len(),
            offset <= orig.len(),
            offset >= 1 || orig.len() == 0,
            forall|i: int| 0 <= i < offset ==> #[trigger] cumulative@[i] == orig[i],
            forall|i: int|
                offset <= i < orig.len() && i >= 1 ==> #[trigger] cumulative@[i]
                    == orig[i].wrapping_sub(orig[i - 1]),
        decreases offset,
    {
        offset = offset - 1;
        let v = cumulative[offset].wrapping_sub(cumulative[offset - 1]);
        cumulative.set(offset, v);
    }
    assert(cumulative@ =~= differences(orig));
}

/// A copy of a vector of counts.
fn copy_counts(v: &Vec<u64>) -> (r: Vec<u64>)
    ensures
        r@ == v@,
{
    let mut r: Vec<u64> = Vec::with_capacity(v.len());
    let mut i: usize = 0;
    while i < v.len()
        invariant
            i <= v@.len(),
            r@ == v@.take(i as int),
        decreases v@.len() - i,
    {
        r.push(v[i]);
        i = i + 1;
        assert(r@ =~= v@.take(i as int));
    }
    assert(v@.take(i as int) =~= v@);
    r
}

/// A copy of a vector of bucket indices.
fn copy_indices(v: &Vec<usize>) -> (r: Vec<usize>)
    ensures
        r@ == v@,
{
    let mut r: Vec<usize> = Vec::with_capacity(v.len());
    let mut i: usize = 0;
    while i < v.len()
        invariant
            i <= v@.len(),
            r@ == v@.take(i as int),
        decreases v@.len() - i,
    {
        r.push(v[i]);
        i = i + 1;
        assert(r@ =~= v@.take(i as int));
    }
    assert(v@.take(i as int) =~= v@);
    r
}

/// A read-only sparse histogram which stores the running sums of the counts,
/// so that percentiles can be found with a binary search.
#[derive(Clone, Debug, PartialEq)]
pub struct SparseHistogramRO {
    /// parameters representing the resolution and the range of
    /// the histogram tracking request latencies
    pub config: Config,
    /// indices for the non-zero buckets in the histogram
    pub(crate) index: Vec<usize>,
    /// histogram cumulative bucket counts corresponding to the indices
    pub(crate) cumulative: Vec<u64>,
}

impl SparseHistogramRO {
    /// The bucket configuration.
    pub closed spec fn spec_config(&self) -> Config {
        self.config
    }

    /// The bucket indices.
    pub closed spec fn spec_index(&self) -> Seq<usize> {
        self.index@
    }

    /// The running sums of the bucket counts.
    pub closed spec fn spec_cumulative(&self) -> Seq<u64> {
        self.cumulative@
    }

    /// The configuration is well formed, there is one running sum per index,
    /// and every index names a bucket of the configuration.
    pub open spec fn wf(&self) -> bool {
        &&& self.spec_config().wf()
        &&& self.spec_index().len() == self.spec_cumulative().len()
        &&& forall|k: int|
            0 <= k < self.spec_index().len() ==> #[trigger] self.spec_index()[k]
                < self.spec_config().spec_total_bins()
    }

    /// The total count: the last running sum, or zero if there are no
    /// entries.
    pub fn total_count(&self) -> (r: u64)
        ensures
            r == if self.spec_cumulative().len() == 0 {
                0
            } else {
                self.spec_cumulative().last()
            },
    {
        if self.cumulative.len() == 0 {
            0
        } else {
            self.cumulative[self.cumulative.len() - 1]
        }
    }

    /// The bucket of the first entry whose running sum is at least `needed`,
    /// with the difference of that running sum and the one before it (the
    /// entry's count) as its count, or `None` if every running sum is
    /// smaller. This is the bucket of the percentile whose rank
    /// `ceil(p / 100 * total)` is `needed`.
    pub fn bucket_for_rank(&self, needed: u64) -> (r: Option<Bucket>)
        requires
            self.wf(),
        ensures
            ({
                let c = self.spec_cumulative();
                let k = first_at_least_from(c, needed as nat, 0);
                if k < c.len() {
                    r == Some(
                        crate::histogram::standard::bucket_at(
                            self.spec_config(),
                            self.spec_index()[k as int] as int,
                            differences(c)[k as int],
                        ),
                    )
                } else {
                    r is None
                }
            }),
    {
        let k = first_at_least_index(self.cumulative.as_slice(), needed);
        if k < self.cumulative.len() {
            let count = if k == 0 {
                self.cumulative[0]
            } else {
                self.cumulative[k].wrapping_sub(self.cumulative[k - 1])
            };
            let idx = self.index[k];
            Some(
                Bucket {
                    count,
                    lower: self.config.index_to_lower_bound(idx),
                    upper: self.config.index_to_upper_bound(idx),
                },
            )
        } else {
            None
        }
    }

    /// Construct a new histogram from the provided parameters, bucket index,
    /// and bucket count. See the documentation for
    /// [`crate::histogram::Config`] to understand the meaning of the
    /// parameters `grouping_power` and `max_value_power`. Meanwhile, `index`
    /// and `count` must be of the same length.
    pub fn from_index_count(
        grouping_power: u8,
        max_value_power: u8,
        index: Vec<usize>,
        count: Vec<u64>,
    ) -> (r: Result<Self, Error>)
        requires
            crate::histogram::config::valid_params(0, grouping_power as nat, max_value_power as nat)
                ==> crate::histogram::config::params_fit(
                0,
                grouping_power as nat,
                max_value_power as nat,
            ),
        ensures
            match r {
                Ok(h) => {
                    &&& crate::histogram::config::valid_params(
                        0,
                        grouping_power as nat,
                        max_value_power as nat,
                    )
                    &&& index@.len() == count@.len()
                    &&& h.spec_config().wf()
                    &&& h.spec_config().linear_power() == 0
                    &&& h.spec_config().spec_grouping_power() == grouping_power
                    &&& h.spec_config().spec_max_value_power() == max_value_power
                    &&& h.spec_index() == index@
                    &&& sums_fit(count@)
                    &&& h.spec_cumulative() == running_sums(count@)
                },
                Err(e) => {
                    ||| (max_value_power > 64 && e == Error::MaxPowerTooHigh)
                    ||| (max_value_power <= 64 && grouping_power >= max_value_power && e
                        == Error::MaxPowerTooLow)
                    ||| (crate::histogram::config::valid_params(
                        0,
                        grouping_power as nat,
                        max_value_power as nat,
                    ) && index@.len() != count@.len() && e == Error::LengthMismatch)
                    ||| (crate::histogram::config::valid_params(
                        0,
                        grouping_power as nat,
                        max_value_power as nat,
                    ) && index@.len() == count@.len() && !sums_fit(count@) && e
                        == Error::Overflow)
                },
            },
    {
        let config = match Config::new(grouping_power, max_value_power) {
            Ok(c) => c,
            Err(e) => return Err(e),
        };
        if index.len() != count.len() {
            return Err(Error::LengthMismatch);
        }
        let ghost orig = count@;
        let mut count = count;
        match count_to_cumulative(&mut count) {
            Ok(()) => {},
            Err(e) => {
                return Err(e);
            },
        }
        Ok(Self { config, index, cumulative: count })
    }

    /// The read-only histogram of a sparse histogram. If a running sum
    /// overflows, the running sums are left as `cumulative_stopped` describes.
    pub fn from_sparse(histogram: &SparseHistogram) -> (r: SparseHistogramRO)
        ensures
            r.spec_config() == histogram.config,
            r.spec_index() == histogram.index@,
            r.spec_cumulative().len() == histogram.count@.len(),
            sums_fit(histogram.count@) ==> r.spec_cumulative() == running_sums(histogram.count@),
            !sums_fit(histogram.count@) ==> exists|m: int|
                cumulative_stopped(histogram.count@, r.spec_cumulative(), m),
    {
        let mut count = copy_counts(&histogram.count);
        let _ = count_to_cumulative(&mut count);
        SparseHistogramRO {
            config: histogram.config,
            index: copy_indices(&histogram.index),
            cumulative: count,
        }
    }
}

impl SparseHistogram {
    /// The sparse histogram whose counts are the differences of the running
    /// sums of a read-only histogram (wrapping on underflow).
    pub fn from_read_only(histogram: &SparseHistogramRO) -> (r: SparseHistogram)
        ensures
            r.config == histogram.spec_config(),
            r.index@ == histogram.spec_index(),
            r.count@ == differences(histogram.spec_cumulative()),
    {
        let mut cumulative = copy_counts(&histogram.cumulative);
        cumulative_to_count(&mut cumulative);
        SparseHistogram {
            config: histogram.config,
            index: copy_indices(&histogram.index),
            count: cumulative,
        }
    }
}

impl From<&SparseHistogram> for SparseHistogramRO {
    fn from(histogram: &SparseHistogram) -> (r: Self) {
        Self::from_sparse(histogram)
    }
}

impl FromSpecImpl<&SparseHistogram> for SparseHistogramRO {
    /// Verified callers use `from_sparse`, whose contract states the result.
    open spec fn obeys_from_spec() -> bool {
        false
    }

    open spec fn from_spec(v: &SparseHistogram) -> SparseHistogramRO {
        arbitrary()
    }
}

impl From<&SparseHistogramRO> for SparseHistogram {
    fn from(histogram: &SparseHistogramRO) -> (r: Self) {
        Self::from_read_only(histogram)
    }
}

impl FromSpecImpl<&SparseHistogramRO> for SparseHistogram {
    /// Verified callers use `from_read_only`, whose contract states the
    /// result.
    open spec fn obeys_from_spec() -> bool {
        false
    }

    open spec fn from_spec(v: &SparseHistogramRO) -> SparseHistogram {
        arbitrary()
    }
}

} // verus!
