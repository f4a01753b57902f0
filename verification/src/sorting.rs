//! A stable insertion sort over values that carry a total preorder.

use vstd::prelude::*;
use vstd::multiset::Multiset;

verus! {

broadcast use vstd::seq_lib::group_to_multiset_ensures;

/// Values with a total preorder `key_le`, decided by `le`.
pub trait SortKey: Sized {
    spec fn key_le(&self, other: &Self) -> bool;

    proof fn lemma_key_total(a: &Self, b: &Self)
        ensures
            a.key_le(b) || b.key_le(a);

    proof fn lemma_key_trans(a: &Self, b: &Self, c: &Self)
        requires
            a.key_le(b),
            b.key_le(c),
        ensures
            a.key_le(c);

    fn le(&self, other: &Self) -> (r: bool)
        ensures
            r == self.key_le(other);
}

/// Every element is `key_le` every later element.
pub open spec fn sorted_seq<T: SortKey>(s: Seq<T>) -> bool {
    forall|i: int, j: int| 0 <= i < j < s.len() ==> s[i].key_le(&s[j])
}

/// The elements of `v`, reordered so that each is `key_le` every later one; elements whose keys
/// tie keep their relative order.
pub fn insertion_sort<T: SortKey>(v: Vec<T>) -> (r: Vec<T>)
    ensures
        sorted_seq(r@),
        r@.to_multiset() == v@.to_multiset(),
        r@.len() == v@.len(),
{
    let ghost orig = v@;
    let mut rest = v;
    let mut out: Vec<T> = Vec::new();
    proof {
        assert(out@ =~= Seq::<T>::empty());
    }
    while rest.len() > 0
        invariant
            sorted_seq(out@),
            out@.to_multiset().add(rest@.to_multiset()) == orig.to_multiset(),
        decreases rest@.len(),
    {
        let ghost rest_before = rest@;
        let x = rest.remove(0);
        proof {
            assert(rest@.to_multiset() == rest_before.to_multiset().remove(x));
        }
        let n = out.len();
        let mut p: usize = 0;
        while p < n && out[p].le(&x)
            invariant
                n == out@.len(),
                0 <= p <= n,
                forall|k: int| 0 <= k < p ==> out@[k].key_le(&x),
            decreases n - p,
        {
            p += 1;
        }
        proof {
            assert forall|k: int| p <= k < n implies x.key_le(&out@[k]) by {
                if out@[k].key_le(&x) {
                    if k > p {
                        T::lemma_key_trans(&out@[p as int], &out@[k], &x);
                    }
                }
                T::lemma_key_total(&out@[k], &x);
            }
        }
        let ghost out_before = out@;
        out.insert(p, x);
        proof {
            assert(out@ == out_before.insert(p as int, x));
            assert forall|i: int, j: int| 0 <= i < j < out@.len() implies out@[i].key_le(&out@[j]) by {
                if i < p && j < p {
                } else if i < p && j == p {
                } else if i < p && j > p {
                    T::lemma_key_trans(&out_before[i], &x, &out_before[j - 1]);
                } else if i == p {
                } else {
                }
            }
            assert(out@.to_multiset() == out_before.to_multiset().insert(x));
            assert(rest_before.to_multiset().remove(x).insert(x) == rest_before.to_multiset()) by {
                assert(rest_before[0] == x);
                assert(rest_before.to_multiset().count(x) > 0);
            }
            assert(out@.to_multiset().add(rest@.to_multiset()) =~= orig.to_multiset());
        }
    }
    proof {
        assert(rest@.to_multiset() =~= Multiset::empty());
        assert(out@.to_multiset() =~= orig.to_multiset());
        vstd::seq_lib::to_multiset_len(out@);
        vstd::seq_lib::to_multiset_len(orig);
    }
    out
}

/// Reordering a sequence keeps its keys pairwise distinct.
pub proof fn lemma_permutation_keeps_distinct_keys<T, K>(s: Seq<T>, t: Seq<T>, f: spec_fn(T) -> K)
    requires
        s.to_multiset() == t.to_multiset(),
        forall|i: int, j: int| 0 <= i < t.len() && 0 <= j < t.len() && i != j ==> f(t[i]) != f(t[j]),
    ensures
        forall|i: int, j: int| 0 <= i < s.len() && 0 <= j < s.len() && i != j ==> f(s[i]) != f(s[j]),
{
    assert(t.no_duplicates()) by {
        assert forall|i: int, j: int| 0 <= i < t.len() && 0 <= j < t.len() && i != j implies t[i] != t[j] by {
            assert(f(t[i]) != f(t[j]));
        }
    }
    t.lemma_multiset_has_no_duplicates();
    s.lemma_multiset_has_no_duplicates_conv();
    assert forall|i: int, j: int| 0 <= i < s.len() && 0 <= j < s.len() && i != j implies f(s[i]) != f(s[j]) by {
        assert(s[i] != s[j]);
        assert(s.to_multiset().count(s[i]) > 0);
        assert(s.to_multiset().count(s[j]) > 0);
        assert(t.contains(s[i]));
        assert(t.contains(s[j]));
        let p = choose|p: int| 0 <= p < t.len() && t[p] == s[i];
        let q = choose|q: int| 0 <= q < t.len() && t[q] == s[j];
        assert(p != q);
    }
}

/// Every element of a reordered sequence is an element of the original.
pub proof fn lemma_permutation_contains<T>(s: Seq<T>, t: Seq<T>, i: int)
    requires
        s.to_multiset() == t.to_multiset(),
        0 <= i < s.len(),
    ensures
        t.contains(s[i]),
{
    assert(s.to_multiset().count(s[i]) > 0);
}

} // verus!
