//! Stable ordering of listings: the items of a listing are put in rank order,
//! and items of equal rank keep the order in which they came.
use vstd::prelude::*;

verus! {

/// Items ranked by a strict weak order.
pub trait Ranked: Sized {
    /// Whether `self` ranks strictly before `other`.
    spec fn ranks_before(&self, other: &Self) -> bool;

    /// Nothing ranks before itself.
    proof fn lemma_irreflexive(a: &Self)
        ensures
            !a.ranks_before(a),
    ;

    /// Ranking before is transitive.
    proof fn lemma_transitive(a: &Self, b: &Self, c: &Self)
        requires
            a.ranks_before(b),
            b.ranks_before(c),
        ensures
            a.ranks_before(c),
    ;

    /// Not ranking before is transitive.
    proof fn lemma_not_before_transitive(a: &Self, b: &Self, c: &Self)
        requires
            !b.ranks_before(a),
            !c.ranks_before(b),
        ensures
            !c.ranks_before(a),
    ;

    /// Whether `self` ranks strictly before `other`.
    fn before(&self, other: &Self) -> (r: bool)
        ensures
            r == self.ranks_before(other),
    ;
}

/// Whether the item at position `i` of `s` goes before the one at `j`: it
/// ranks before it, or they rank equally and `i` comes first.
pub open spec fn index_precedes<T: Ranked>(s: Seq<T>, i: int, j: int) -> bool {
    s[i].ranks_before(&s[j]) || (!s[j].ranks_before(&s[i]) && i < j)
}

/// Whether position `i` occurs in `idx`.
pub open spec fn lists(idx: Seq<int>, i: int) -> bool {
    exists|a: int| 0 <= a < idx.len() && #[trigger] idx[a] == i
}

/// `idx` lists the positions of `s` in the order `index_precedes` gives:
/// each position once, in rank order, ties in the order they came in.
pub open spec fn ranked_order<T: Ranked>(s: Seq<T>, idx: Seq<int>) -> bool {
    &&& idx.len() == s.len()
    &&& forall|a: int| 0 <= a < idx.len() ==> 0 <= #[trigger] idx[a] < s.len()
    &&& forall|i: int| 0 <= i < s.len() ==> #[trigger] lists(idx, i)
    &&& forall|a: int, b: int| 0 <= a < b < idx.len() ==> index_precedes(s, #[trigger] idx[a], #[trigger] idx[b])
}

/// `r` is `s` stably sorted by rank.
pub open spec fn is_ranking<T: Ranked>(s: Seq<T>, r: Seq<T>) -> bool {
    exists|idx: Seq<int>| ranked_order(s, idx) && r == idx.map_values(|i: int| s[i])
}

/// The items of `items`, stably sorted by rank.
pub fn rank_sort<T: Ranked>(items: Vec<T>) -> (r: Vec<T>)
    ensures
        is_ranking(items@, r@),
{
    let ghost orig = items@;
    let mut rest = items;
    let mut out: Vec<T> = Vec::new();
    let ghost mut idx: Seq<int> = Seq::empty();
    let n = rest.len();
    let mut k: usize = 0;
    while k < n
        invariant
            n == orig.len(),
            k <= n,
            rest@ == orig.skip(k as int),
            out@.len() == k,
            idx.len() == k,
            forall|a: int| 0 <= a < k ==> 0 <= #[trigger] idx[a] < k,
            forall|i: int| 0 <= i < k ==> #[trigger] lists(idx, i),
            forall|a: int| 0 <= a < k ==> #[trigger] out@[a] == orig[idx[a]],
            forall|a: int, b: int| 0 <= a < b < k ==> index_precedes(orig, #[trigger] idx[a], #[trigger] idx[b]),
        decreases n - k,
    {
        proof {
            assert(rest@[0] == orig[k as int]);
        }
        let x = rest.remove(0);
        proof {
            assert(rest@ =~= orig.skip(k + 1));
        }
        let mut p: usize = 0;
        while p < out.len() && !x.before(&out[p])
            invariant
                out@.len() == k,
                p <= k,
                x == orig[k as int],
                forall|a: int| 0 <= a < k ==> #[trigger] out@[a] == orig[idx[a]],
                forall|a: int| 0 <= a < p ==> !x.ranks_before(&#[trigger] out@[a]),
            decreases k - p,
        {
            p = p + 1;
        }
        let ghost old_idx = idx;
        let ghost old_out = out@;
        out.insert(p, x);
        proof {
            idx = old_idx.insert(p as int, k as int);
            assert forall|a: int| 0 <= a < k + 1 implies 0 <= #[trigger] idx[a] < k + 1 by {
                if a < p {
                    assert(idx[a] == old_idx[a]);
                } else if a > p {
                    assert(idx[a] == old_idx[a - 1]);
                }
            }
            assert forall|i: int| 0 <= i < k + 1 implies #[trigger] lists(idx, i) by {
                if i == k {
                    assert(idx[p as int] == k);
                } else {
                    assert(lists(old_idx, i));
                    let a0 = choose|a: int| 0 <= a < k && #[trigger] old_idx[a] == i;
                    if a0 < p {
                        assert(idx[a0] == i);
                    } else {
                        assert(idx[a0 + 1] == i);
                    }
                }
            }
            assert forall|a: int| 0 <= a < k + 1 implies #[trigger] out@[a] == orig[idx[a]] by {
                if a < p {
                    assert(out@[a] == old_out[a]);
                } else if a > p {
                    assert(out@[a] == old_out[a - 1]);
                }
            }
            assert forall|a: int, b: int| 0 <= a < b < k + 1 implies index_precedes(orig, #[trigger] idx[a], #[trigger] idx[b]) by {
                let xk = orig[k as int];
                if a < p && b < p {
                    assert(idx[a] == old_idx[a] && idx[b] == old_idx[b]);
                } else if a > p && b > p {
                    assert(idx[a] == old_idx[a - 1] && idx[b] == old_idx[b - 1]);
                } else if a < p && b > p {
                    assert(idx[a] == old_idx[a] && idx[b] == old_idx[b - 1]);
                } else if b == p {
                    assert(idx[a] == old_idx[a]);
                    assert(!xk.ranks_before(&old_out[a]));
                    assert(old_out[a] == orig[old_idx[a]]);
                } else {
                    // a == p < b: x ranks before the item it was put in front of,
                    // and that item goes before every later one.
                    assert(idx[a] == k);
                    assert(idx[b] == old_idx[b - 1]);
                    let z = orig[old_idx[p as int]];
                    let y = orig[old_idx[b - 1]];
                    assert(xk.ranks_before(&old_out[p as int]));
                    assert(old_out[p as int] == z);
                    if b - 1 > p {
                        assert(index_precedes(orig, old_idx[p as int], old_idx[b - 1]));
                        if z.ranks_before(&y) {
                            T::lemma_transitive(&xk, &z, &y);
                        } else {
                            if !xk.ranks_before(&y) {
                                T::lemma_not_before_transitive(&z, &y, &xk);
                            }
                        }
                    }
                }
            }
        }
        k = k + 1;
    }
    proof {
        assert(out@ =~= idx.map_values(|i: int| orig[i]));
        assert(ranked_order(orig, idx));
    }
    out
}

/// The sum of `f` over the items of `s`.
pub open spec fn total_of<T>(s: Seq<T>, f: spec_fn(T) -> int) -> int
    decreases s.len(),
{
    if s.len() == 0 {
        0
    } else {
        total_of(s.drop_last(), f) + f(s.last())
    }
}

/// Taking out the item at `a` takes its value out of the sum.
pub proof fn lemma_total_of_remove<T>(s: Seq<T>, f: spec_fn(T) -> int, a: int)
    requires
        0 <= a < s.len(),
    ensures
        total_of(s, f) == total_of(s.remove(a), f) + f(s[a]),
    decreases s.len(),
{
    if a == s.len() - 1 {
        assert(s.remove(a) =~= s.drop_last());
    } else {
        lemma_total_of_remove(s.drop_last(), f, a);
        assert(s.remove(a).drop_last() =~= s.drop_last().remove(a));
        assert(s.remove(a).last() == s.last());
    }
}

/// In a ranking no position is listed twice.
pub proof fn lemma_ranked_order_injective<T: Ranked>(s: Seq<T>, idx: Seq<int>)
    requires
        ranked_order(s, idx),
    ensures
        forall|a: int, b: int| 0 <= a < idx.len() && 0 <= b < idx.len() && a != b ==> #[trigger] idx[a] != #[trigger] idx[b],
{
    assert forall|a: int, b: int| 0 <= a < idx.len() && 0 <= b < idx.len() && a != b implies #[trigger] idx[a] != #[trigger] idx[b] by {
        if idx[a] == idx[b] {
            T::lemma_irreflexive(&s[idx[a]]);
            if a < b {
                assert(index_precedes(s, idx[a], idx[b]));
            } else {
                assert(index_precedes(s, idx[b], idx[a]));
            }
        }
    }
}

proof fn lemma_permuted_total<T>(s: Seq<T>, idx: Seq<int>, f: spec_fn(T) -> int)
    requires
        idx.len() == s.len(),
        forall|a: int| 0 <= a < idx.len() ==> 0 <= #[trigger] idx[a] < s.len(),
        forall|i: int| 0 <= i < s.len() ==> #[trigger] lists(idx, i),
        forall|a: int, b: int| 0 <= a < idx.len() && 0 <= b < idx.len() && a != b ==> #[trigger] idx[a] != #[trigger] idx[b],
    ensures
        total_of(idx.map_values(|i: int| s[i]), f) == total_of(s, f),
    decreases s.len(),
{
    let r = idx.map_values(|i: int| s[i]);
    if s.len() > 0 {
        let n = s.len() - 1;
        assert(lists(idx, n));
        let top = choose|a: int| 0 <= a < idx.len() && #[trigger] idx[a] == n;
        let idx2 = idx.remove(top);
        let s2 = s.drop_last();
        assert forall|a: int| 0 <= a < idx2.len() implies 0 <= #[trigger] idx2[a] < s2.len() by {
            if a < top {
                assert(idx2[a] == idx[a]);
            } else {
                assert(idx2[a] == idx[a + 1]);
            }
        }
        assert forall|i: int| 0 <= i < s2.len() implies #[trigger] lists(idx2, i) by {
            assert(lists(idx, i));
            let a0 = choose|a: int| 0 <= a < idx.len() && #[trigger] idx[a] == i;
            if a0 < top {
                assert(idx2[a0] == i);
            } else {
                assert(idx2[a0 - 1] == i);
            }
        }
        assert forall|a: int, b: int| 0 <= a < idx2.len() && 0 <= b < idx2.len() && a != b implies #[trigger] idx2[a]
            != #[trigger] idx2[b] by {
            let a1 = if a < top { a } else { a + 1 };
            let b1 = if b < top { b } else { b + 1 };
            assert(idx2[a] == idx[a1]);
            assert(idx2[b] == idx[b1]);
        }
        lemma_permuted_total(s2, idx2, f);
        assert(r.remove(top) =~= idx2.map_values(|i: int| s2[i]));
        lemma_total_of_remove(r, f, top);
    }
}

/// A ranking has the same sum as the items it ranks.
pub proof fn lemma_ranking_total<T: Ranked>(s: Seq<T>, r: Seq<T>, f: spec_fn(T) -> int)
    requires
        is_ranking(s, r),
    ensures
        total_of(r, f) == total_of(s, f),
{
    let idx = choose|idx: Seq<int>| ranked_order(s, idx) && r == idx.map_values(|i: int| s[i]);
    lemma_ranked_order_injective(s, idx);
    lemma_permuted_total(s, idx, f);
}

/// A ranking is in rank order: no item ranks strictly before an item that
/// comes ahead of it; and each of its items is an item of what was ranked.
pub proof fn lemma_ranking_sorted<T: Ranked>(s: Seq<T>, r: Seq<T>)
    requires
        is_ranking(s, r),
    ensures
        r.len() == s.len(),
        forall|a: int, b: int| #![trigger r[a], r[b]] 0 <= a < b < r.len() ==> !r[b].ranks_before(&r[a]),
        forall|a: int| 0 <= a < r.len() ==> s.contains(#[trigger] r[a]),
{
    let idx = choose|idx: Seq<int>| ranked_order(s, idx) && r == idx.map_values(|i: int| s[i]);
    assert forall|a: int, b: int| #![trigger r[a], r[b]] 0 <= a < b < r.len() implies !r[b].ranks_before(&r[a]) by {
        let x = s[idx[a]];
        let y = s[idx[b]];
        assert(r[a] == x && r[b] == y);
        assert(index_precedes(s, idx[a], idx[b]));
        if x.ranks_before(&y) && y.ranks_before(&x) {
            T::lemma_transitive(&x, &y, &x);
            T::lemma_irreflexive(&x);
        }
    }
    assert forall|a: int| 0 <= a < r.len() implies s.contains(#[trigger] r[a]) by {
        assert(r[a] == s[idx[a]]);
    }
}

} // verus!
