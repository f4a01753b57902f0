//! Counting the items of a sequence by key.

use vstd::prelude::*;

verus! {

/// The items of `s` whose key is `k`, in order.
pub open spec fn keyed<T, K>(s: Seq<T>, key: spec_fn(T) -> K, k: K) -> Seq<T>
    decreases s.len(),
{
    if s.len() == 0 {
        Seq::empty()
    } else if key(s.last()) == k {
        keyed(s.drop_last(), key, k).push(s.last())
    } else {
        keyed(s.drop_last(), key, k)
    }
}

/// The number of items of `s` whose key is each of `ks` in turn, added up.
pub open spec fn keyed_total<T, K>(s: Seq<T>, key: spec_fn(T) -> K, ks: Seq<K>) -> nat
    decreases ks.len(),
{
    if ks.len() == 0 {
        0
    } else {
        keyed_total(s, key, ks.drop_last()) + keyed(s, key, ks.last()).len()
    }
}

/// How often `k` occurs in `ks`.
pub open spec fn occurrences<K>(ks: Seq<K>, k: K) -> nat
    decreases ks.len(),
{
    if ks.len() == 0 {
        0
    } else {
        occurrences(ks.drop_last(), k) + if ks.last() == k { 1nat } else { 0nat }
    }
}

proof fn lemma_keyed_total_push<T, K>(s: Seq<T>, x: T, key: spec_fn(T) -> K, ks: Seq<K>)
    ensures
        keyed_total(s.push(x), key, ks) == keyed_total(s, key, ks) + occurrences(ks, key(x)),
    decreases ks.len(),
{
    if ks.len() > 0 {
        lemma_keyed_total_push(s, x, key, ks.drop_last());
        assert(s.push(x).drop_last() =~= s);
    }
}

proof fn lemma_occurrences_distinct<K>(ks: Seq<K>, k: K)
    requires
        ks.no_duplicates(),
    ensures
        occurrences(ks, k) == if ks.contains(k) { 1nat } else { 0nat },
    decreases ks.len(),
{
    if ks.len() > 0 {
        let rest = ks.drop_last();
        assert(rest.no_duplicates());
        lemma_occurrences_distinct(rest, k);
        if ks.last() == k {
            assert(!rest.contains(k)) by {
                if rest.contains(k) {
                    let i = choose|i: int| 0 <= i < rest.len() && rest[i] == k;
                    assert(ks[i] == ks[ks.len() - 1]);
                }
            }
            assert(ks.contains(k)) by {
                assert(ks[ks.len() - 1] == k);
            }
        } else {
            if ks.contains(k) {
                let i = choose|i: int| 0 <= i < ks.len() && ks[i] == k;
                assert(rest[i] == k);
            }
            if rest.contains(k) {
                let i = choose|i: int| 0 <= i < rest.len() && rest[i] == k;
                assert(ks[i] == k);
            }
        }
    }
}

/// Where the keys `ks` are distinct and every item's key is among them, counting the items of
/// each key counts every item exactly once.
pub proof fn lemma_keyed_partition<T, K>(s: Seq<T>, key: spec_fn(T) -> K, ks: Seq<K>)
    requires
        ks.no_duplicates(),
        forall|i: int| 0 <= i < s.len() ==> ks.contains(key(#[trigger] s[i])),
    ensures
        keyed_total(s, key, ks) == s.len(),
    decreases s.len(),
{
    if s.len() == 0 {
        lemma_keyed_total_empty(s, key, ks);
    } else {
        let rest = s.drop_last();
        assert forall|i: int| 0 <= i < rest.len() implies ks.contains(key(#[trigger] rest[i])) by {
            assert(rest[i] == s[i]);
        }
        lemma_keyed_partition(rest, key, ks);
        lemma_keyed_total_push(rest, s.last(), key, ks);
        assert(rest.push(s.last()) =~= s);
        assert(ks.contains(key(s[s.len() - 1])));
        lemma_occurrences_distinct(ks, key(s.last()));
    }
}

proof fn lemma_keyed_total_empty<T, K>(s: Seq<T>, key: spec_fn(T) -> K, ks: Seq<K>)
    requires
        s.len() == 0,
    ensures
        keyed_total(s, key, ks) == 0,
    decreases ks.len(),
{
    if ks.len() > 0 {
        lemma_keyed_total_empty(s, key, ks.drop_last());
    }
}

} // verus!
