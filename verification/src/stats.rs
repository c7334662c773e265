//! Order statistics over latency samples.
use vstd::prelude::*;
use vstd::relations::sorted_by;
use vstd::relations::total_ordering;

verus! {

broadcast use vstd::seq_lib::group_to_multiset_ensures;

/// The usual order on `u64`.
pub open spec fn u64_le() -> spec_fn(u64, u64) -> bool {
    |a: u64, b: u64| a <= b
}

/// The samples of `s` in ascending order.
pub open spec fn ascending(s: Seq<u64>) -> Seq<u64> {
    s.sort_by(u64_le())
}

/// The smallest element of a non-empty sequence.
pub open spec fn seq_min(s: Seq<u64>) -> u64
    recommends
        s.len() > 0,
    decreases s.len(),
{
    if s.len() <= 1 {
        s[0]
    } else {
        let m = seq_min(s.drop_last());
        if s.last() < m {
            s.last()
        } else {
            m
        }
    }
}

/// The largest element of a non-empty sequence.
pub open spec fn seq_max(s: Seq<u64>) -> u64
    recommends
        s.len() > 0,
    decreases s.len(),
{
    if s.len() <= 1 {
        s[0]
    } else {
        let m = seq_max(s.drop_last());
        if s.last() > m {
            s.last()
        } else {
            m
        }
    }
}

/// The sum of the elements of `s`.
pub open spec fn seq_sum(s: Seq<u64>) -> nat
    decreases s.len(),
{
    if s.len() == 0 {
        0
    } else {
        seq_sum(s.drop_last()) + s.last() as nat
    }
}

/// `seq_min` is an element of the sequence and no element is smaller.
pub proof fn lemma_seq_min(s: Seq<u64>)
    requires
        s.len() > 0,
    ensures
        s.contains(seq_min(s)),
        forall|i: int| 0 <= i < s.len() ==> seq_min(s) <= #[trigger] s[i],
    decreases s.len(),
{
    if s.len() > 1 {
        lemma_seq_min(s.drop_last());
        let m = seq_min(s.drop_last());
        let k = choose|k: int| 0 <= k < s.drop_last().len() && s.drop_last()[k] == m;
        assert(s[k] == m);
        assert(s[s.len() - 1] == s.last());
        assert forall|i: int| 0 <= i < s.len() implies seq_min(s) <= #[trigger] s[i] by {
            if i < s.len() - 1 {
                assert(s[i] == s.drop_last()[i]);
            }
        }
    } else {
        assert(s[0] == seq_min(s));
    }
}

/// `seq_max` is an element of the sequence and no element is larger.
pub proof fn lemma_seq_max(s: Seq<u64>)
    requires
        s.len() > 0,
    ensures
        s.contains(seq_max(s)),
        forall|i: int| 0 <= i < s.len() ==> #[trigger] s[i] <= seq_max(s),
    decreases s.len(),
{
    if s.len() > 1 {
        lemma_seq_max(s.drop_last());
        let m = seq_max(s.drop_last());
        let k = choose|k: int| 0 <= k < s.drop_last().len() && s.drop_last()[k] == m;
        assert(s[k] == m);
        assert(s[s.len() - 1] == s.last());
        assert forall|i: int| 0 <= i < s.len() implies #[trigger] s[i] <= seq_max(s) by {
            if i < s.len() - 1 {
                assert(s[i] == s.drop_last()[i]);
            }
        }
    } else {
        assert(s[0] == seq_max(s));
    }
}

/// The order on `u64` is total, so the ascending arrangement is well defined.
pub proof fn lemma_u64_le_total()
    ensures
        total_ordering(u64_le()),
{
}

/// The ascending arrangement holds the same samples, sorted.
pub proof fn lemma_ascending(s: Seq<u64>)
    ensures
        ascending(s).to_multiset() == s.to_multiset(),
        ascending(s).len() == s.len(),
        sorted_by(ascending(s), u64_le()),
        forall|i: int, j: int|
            0 <= i <= j < s.len() ==> #[trigger] ascending(s)[i] <= #[trigger] ascending(s)[j],
{
    lemma_u64_le_total();
    s.lemma_sort_by_ensures(u64_le());
    assert(ascending(s).to_multiset().len() == s.to_multiset().len());
    assert forall|i: int, j: int|
        0 <= i <= j < s.len() implies #[trigger] ascending(s)[i] <= #[trigger] ascending(s)[j] by {
        if i < j {
            assert(u64_le()(ascending(s)[i], ascending(s)[j]));
        }
    }
}

/// The first sample in ascending order is the minimum, the last the maximum.
pub proof fn lemma_ascending_ends(s: Seq<u64>)
    requires
        s.len() > 0,
    ensures
        ascending(s)[0] == seq_min(s),
        ascending(s)[s.len() - 1] == seq_max(s),
        forall|i: int| 0 <= i < s.len() ==> s.contains(#[trigger] ascending(s)[i]),
{
    lemma_ascending(s);
    lemma_seq_min(s);
    lemma_seq_max(s);
    let a = ascending(s);
    assert forall|i: int| 0 <= i < s.len() implies s.contains(#[trigger] a[i]) by {
        assert(a.contains(a[i]));
        assert(a.to_multiset().count(a[i]) > 0);
    }
    assert(s.to_multiset().count(seq_min(s)) > 0);
    assert(a.contains(seq_min(s)));
    assert(s.to_multiset().count(seq_max(s)) > 0);
    assert(a.contains(seq_max(s)));
    let k0 = choose|k: int| 0 <= k < s.len() && s[k] == a[0];
    let k1 = choose|k: int| 0 <= k < s.len() && s[k] == a[s.len() - 1];
    assert(seq_min(s) <= s[k0]);
    assert(s[k1] <= seq_max(s));
    let j0 = choose|j: int| 0 <= j < a.len() && a[j] == seq_min(s);
    let j1 = choose|j: int| 0 <= j < a.len() && a[j] == seq_max(s);
    assert(a[0] <= a[j0]);
    assert(a[j1] <= a[s.len() - 1]);
}

/// A copy of `s` in ascending order.
pub fn sorted_copy(s: &[u64]) -> (r: Vec<u64>)
    ensures
        r@ == ascending(s@),
{
    let mut out: Vec<u64> = Vec::new();
    let mut i: usize = 0;
    while i < s.len()
        invariant
            i <= s.len(),
            sorted_by(out@, u64_le()),
            out@.to_multiset() == s@.take(i as int).to_multiset(),
        decreases s.len() - i,
    {
        let x = s[i];
        let mut p: usize = 0;
        while p < out.len() && out[p] <= x
            invariant
                p <= out.len(),
                forall|j: int| 0 <= j < p ==> out@[j] <= x,
            decreases out.len() - p,
        {
            p += 1;
        }
        let ghost before = out@;
        out.insert(p, x);
        proof {
            assert(out@ == before.insert(p as int, x));
            assert forall|a: int, b: int| 0 <= a < b < out@.len() implies #[trigger] u64_le()(
                out@[a],
                out@[b],
            ) by {
                if p < before.len() {
                    assert(before[p as int] > x);
                    if b > p && a != p {
                        if a < p {
                            assert(u64_le()(before[a], before[b - 1]));
                        } else {
                            assert(u64_le()(before[a - 1], before[b - 1]));
                        }
                    } else if b > p && a == p {
                        if b - 1 > p {
                            assert(u64_le()(before[p as int], before[b - 1]));
                        }
                    } else if b == p {
                    } else {
                        assert(u64_le()(before[a], before[b]));
                    }
                } else {
                    if b < p {
                        assert(u64_le()(before[a], before[b]));
                    }
                }
            }
            assert(s@.take(i + 1) =~= s@.take(i as int).push(x));
        }
        i += 1;
    }
    proof {
        assert(s@.take(s@.len() as int) =~= s@);
        lemma_ascending(s@);
        lemma_u64_le_total();
        vstd::seq_lib::lemma_sorted_unique(out@, ascending(s@), u64_le());
    }
    out
}

/// The smallest sample.
pub fn minimum(s: &[u64]) -> (r: u64)
    requires
        s@.len() > 0,
    ensures
        r == seq_min(s@),
{
    let mut m = s[0];
    let mut i: usize = 1;
    while i < s.len()
        invariant
            1 <= i <= s.len(),
            m == seq_min(s@.take(i as int)),
        decreases s.len() - i,
    {
        assert(s@.take(i + 1).drop_last() =~= s@.take(i as int));
        if s[i] < m {
            m = s[i];
        }
        i += 1;
    }
    assert(s@.take(s@.len() as int) =~= s@);
    m
}

/// The largest sample.
pub fn maximum(s: &[u64]) -> (r: u64)
    requires
        s@.len() > 0,
    ensures
        r == seq_max(s@),
{
    let mut m = s[0];
    let mut i: usize = 1;
    while i < s.len()
        invariant
            1 <= i <= s.len(),
            m == seq_max(s@.take(i as int)),
        decreases s.len() - i,
    {
        assert(s@.take(i + 1).drop_last() =~= s@.take(i as int));
        if s[i] > m {
            m = s[i];
        }
        i += 1;
    }
    assert(s@.take(s@.len() as int) =~= s@);
    m
}

/// The sum of the samples; it cannot overflow a `u128`.
pub fn sum(s: &[u64]) -> (r: u128)
    ensures
        r == seq_sum(s@),
        r <= s@.len() * u64::MAX,
{
    let mut total: u128 = 0;
    let mut i: usize = 0;
    while i < s.len()
        invariant
            i <= s.len(),
            total == seq_sum(s@.take(i as int)),
            seq_sum(s@.take(i as int)) <= i * u64::MAX,
        decreases s.len() - i,
    {
        assert(s@.take(i + 1).drop_last() =~= s@.take(i as int));
        assert(seq_sum(s@.take(i + 1)) <= (i + 1) * u64::MAX) by (nonlinear_arith)
            requires
                seq_sum(s@.take(i + 1)) == seq_sum(s@.take(i as int)) + s[i as int],
                seq_sum(s@.take(i as int)) <= i * u64::MAX,
                s[i as int] <= u64::MAX,
        ;
        assert((i + 1) * u64::MAX < u128::MAX) by (nonlinear_arith)
            requires
                i < usize::MAX,
        ;
        total = total + s[i] as u128;
        i += 1;
    }
    assert(s@.take(s@.len() as int) =~= s@);
    total
}

/// How many samples of `s` are at most `v`.
pub open spec fn count_at_most(s: Seq<u64>, v: u64) -> nat
    decreases s.len(),
{
    if s.len() == 0 {
        0
    } else {
        count_at_most(s.drop_last(), v) + if s.last() <= v {
            1nat
        } else {
            0nat
        }
    }
}

/// How many samples of `s` are below `v`.
pub open spec fn count_below(s: Seq<u64>, v: u64) -> nat
    decreases s.len(),
{
    if s.len() == 0 {
        0
    } else {
        count_below(s.drop_last(), v) + if s.last() < v {
            1nat
        } else {
            0nat
        }
    }
}

/// Removing one sample lowers the counts by that sample's share.
proof fn lemma_count_remove(t: Seq<u64>, j: int, v: u64)
    requires
        0 <= j < t.len(),
    ensures
        count_at_most(t, v) == count_at_most(t.remove(j), v) + if t[j] <= v {
            1nat
        } else {
            0nat
        },
        count_below(t, v) == count_below(t.remove(j), v) + if t[j] < v {
            1nat
        } else {
            0nat
        },
    decreases t.len(),
{
    if j == t.len() - 1 {
        assert(t.remove(j) =~= t.drop_last());
    } else {
        lemma_count_remove(t.drop_last(), j, v);
        assert(t.remove(j).drop_last() =~= t.drop_last().remove(j));
        assert(t.remove(j).last() == t.last());
    }
}

/// The counts do not depend on the order of the samples.
pub proof fn lemma_count_permutation(s: Seq<u64>, t: Seq<u64>, v: u64)
    requires
        s.to_multiset() == t.to_multiset(),
    ensures
        count_at_most(s, v) == count_at_most(t, v),
        count_below(s, v) == count_below(t, v),
    decreases s.len(),
{
    if s.len() == 0 {
        assert(t.to_multiset().len() == 0);
        assert(t.len() == 0);
    } else {
        let x = s.last();
        assert(s =~= s.drop_last().push(x));
        assert(s.to_multiset().count(x) > 0) by {
            assert(s.contains(x)) by {
                assert(s[s.len() - 1] == x);
            }
        }
        assert(t.contains(x));
        let j = choose|j: int| 0 <= j < t.len() && t[j] == x;
        assert(t.remove(j).to_multiset() == t.to_multiset().remove(x));
        assert(s.drop_last().to_multiset() =~= s.to_multiset().remove(x)) by {
            broadcast use vstd::multiset::group_multiset_axioms;
            assert(s.to_multiset() == s.drop_last().to_multiset().insert(x));
        }
        lemma_count_permutation(s.drop_last(), t.remove(j), v);
        lemma_count_remove(t, j, v);
    }
}

/// In an ascending sequence, the element at `k` has at least `k + 1`
/// elements at most equal to it and at most `k` below it.
proof fn lemma_sorted_counts(a: Seq<u64>, k: int)
    requires
        0 <= k < a.len(),
        forall|i: int, j: int| 0 <= i <= j < a.len() ==> #[trigger] a[i] <= #[trigger] a[j],
    ensures
        count_at_most(a, a[k]) >= k + 1,
        count_below(a, a[k]) <= k,
    decreases a.len(),
{
    let d = a.drop_last();
    if k < a.len() - 1 {
        assert(d[k] == a[k]);
        assert forall|i: int, j: int| 0 <= i <= j < d.len() implies #[trigger] d[i] <= #[trigger] d[j] by {
            assert(a[i] <= a[j]);
        }
        lemma_sorted_counts(d, k);
        assert(a.last() == a[a.len() - 1]);
        assert(a[k] <= a[a.len() - 1]);
    } else {
        lemma_count_bounds(d, a[k]);
        assert forall|i: int| 0 <= i < d.len() implies #[trigger] d[i] <= a[k] by {
            assert(a[i] <= a[k]);
        }
        lemma_count_all(d, a[k]);
        assert(a.last() == a[k]);
    }
}

/// No count exceeds the number of samples.
proof fn lemma_count_bounds(s: Seq<u64>, v: u64)
    ensures
        count_at_most(s, v) <= s.len(),
        count_below(s, v) <= s.len(),
    decreases s.len(),
{
    if s.len() > 0 {
        lemma_count_bounds(s.drop_last(), v);
    }
}

/// When every sample is at most `v`, all are counted.
proof fn lemma_count_all(s: Seq<u64>, v: u64)
    requires
        forall|i: int| 0 <= i < s.len() ==> #[trigger] s[i] <= v,
    ensures
        count_at_most(s, v) == s.len(),
    decreases s.len(),
{
    if s.len() > 0 {
        let d = s.drop_last();
        assert forall|i: int| 0 <= i < d.len() implies #[trigger] d[i] <= v by {
            assert(s[i] <= v);
        }
        lemma_count_all(d, v);
        assert(s.last() == s[s.len() - 1]);
    }
}

/// The element at position `k` of the ascending arrangement of `s` has at
/// least `k + 1` samples of `s` at most equal to it and at most `k` below it.
pub proof fn lemma_ascending_counts(s: Seq<u64>, k: int)
    requires
        0 <= k < s.len(),
    ensures
        count_at_most(s, ascending(s)[k]) >= k + 1,
        count_below(s, ascending(s)[k]) <= k,
{
    lemma_ascending(s);
    lemma_sorted_counts(ascending(s), k);
    lemma_count_permutation(ascending(s), s, ascending(s)[k]);
}

/// The sum of `n` samples lies between `n` times the smallest and `n`
/// times the largest.
pub proof fn lemma_sum_between(s: Seq<u64>)
    requires
        s.len() > 0,
    ensures
        s.len() * seq_min(s) <= seq_sum(s) <= s.len() * seq_max(s),
    decreases s.len(),
{
    if s.len() == 1 {
        assert(s.drop_last().len() == 0);
    } else {
        let d = s.drop_last();
        lemma_sum_between(d);
        let n = d.len();
        let lo = seq_min(s);
        let hi = seq_max(s);
        assert(lo <= seq_min(d) && lo <= s.last());
        assert(hi >= seq_max(d) && hi >= s.last());
        assert(n * lo <= n * seq_min(d) && n * seq_max(d) <= n * hi) by (nonlinear_arith)
            requires
                lo <= seq_min(d),
                seq_max(d) <= hi,
        ;
        assert((n + 1) * lo == n * lo + lo && (n + 1) * hi == n * hi + hi) by (nonlinear_arith);
    }
}

} // verus!
