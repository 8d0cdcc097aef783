//! Association lists as mathematical maps.
//!
//! The ledger keeps each keyed store as a vector of key/value pairs whose
//! keys are pairwise distinct. `assoc_map` reads such a sequence as a
//! `Map`; the lemmas here relate the sequence operations the executable
//! code performs (scan, push, update, remove) to `Map` operations, so that
//! every contract can be stated over maps.

use vstd::prelude::*;

verus! {

/// The map an association list denotes. With duplicate keys the later
/// entry wins; the ledger never has duplicates.
pub open spec fn assoc_map<K, V>(s: Seq<(K, V)>) -> Map<K, V>
    decreases s.len(),
{
    if s.len() == 0 {
        Map::<K, V>::empty()
    } else {
        assoc_map(s.drop_last()).insert(s.last().0, s.last().1)
    }
}

/// Pairwise-distinct keys.
pub open spec fn distinct_keys<K, V>(s: Seq<(K, V)>) -> bool {
    forall|i: int, j: int| 0 <= i < j < s.len() ==> (#[trigger] s[i]).0 != (#[trigger] s[j]).0
}

/// A key is in the map exactly when some entry carries it.
pub proof fn lemma_assoc_contains<K, V>(s: Seq<(K, V)>, k: K)
    ensures
        assoc_map(s).contains_key(k) <==> exists|i: int| 0 <= i < s.len() && (#[trigger] s[i]).0 == k,
    decreases s.len(),
{
    if s.len() > 0 {
        lemma_assoc_contains(s.drop_last(), k);
        if s.last().0 == k {
            assert(s[s.len() - 1].0 == k);
        } else if assoc_map(s).contains_key(k) {
            let i = choose|i: int| 0 <= i < s.drop_last().len() && (#[trigger] s.drop_last()[i]).0 == k;
            assert(s[i].0 == k);
        } else {
            assert forall|i: int| 0 <= i < s.len() implies (#[trigger] s[i]).0 != k by {
                if i < s.len() - 1 {
                    assert(s.drop_last()[i] == s[i]);
                }
            }
        }
    }
}

/// Under distinct keys, the entry at any index gives the map's value.
pub proof fn lemma_assoc_index<K, V>(s: Seq<(K, V)>, i: int)
    requires
        distinct_keys(s),
        0 <= i < s.len(),
    ensures
        assoc_map(s).contains_key(s[i].0),
        assoc_map(s)[s[i].0] == s[i].1,
    decreases s.len(),
{
    if i == s.len() - 1 {
        assert(s.last() == s[i]);
    } else {
        assert(s.drop_last()[i] == s[i]);
        assert(distinct_keys(s.drop_last())) by {
            assert forall|a: int, b: int| 0 <= a < b < s.drop_last().len()
                implies (#[trigger] s.drop_last()[a]).0 != (#[trigger] s.drop_last()[b]).0 by {
                assert(s.drop_last()[a] == s[a]);
                assert(s.drop_last()[b] == s[b]);
            }
        }
        lemma_assoc_index(s.drop_last(), i);
        assert(s[i].0 != s.last().0);
    }
}

/// Appending a pair inserts its key.
pub proof fn lemma_assoc_push<K, V>(s: Seq<(K, V)>, k: K, v: V)
    ensures
        assoc_map(s.push((k, v))) == assoc_map(s).insert(k, v),
{
    assert(s.push((k, v)).drop_last() =~= s);
    assert(s.push((k, v)).last() == (k, v));
}

/// Replacing the value at an index inserts over its key.
pub proof fn lemma_assoc_update<K, V>(s: Seq<(K, V)>, i: int, v: V)
    requires
        distinct_keys(s),
        0 <= i < s.len(),
    ensures
        assoc_map(s.update(i, (s[i].0, v))) == assoc_map(s).insert(s[i].0, v),
    decreases s.len(),
{
    let t = s.update(i, (s[i].0, v));
    if i == s.len() - 1 {
        assert(t.drop_last() =~= s.drop_last());
        assert(t.last() == (s[i].0, v));
        assert(assoc_map(t) =~= assoc_map(s).insert(s[i].0, v));
    } else {
        assert(t.drop_last() =~= s.drop_last().update(i, (s[i].0, v)));
        assert(distinct_keys(s.drop_last())) by {
            assert forall|a: int, b: int| 0 <= a < b < s.drop_last().len()
                implies (#[trigger] s.drop_last()[a]).0 != (#[trigger] s.drop_last()[b]).0 by {
                assert(s.drop_last()[a] == s[a]);
                assert(s.drop_last()[b] == s[b]);
            }
        }
        assert(s.drop_last()[i] == s[i]);
        lemma_assoc_update(s.drop_last(), i, v);
        assert(t.last() == s.last());
        assert(s[i].0 != s.last().0);
        assert(assoc_map(t) =~= assoc_map(s).insert(s[i].0, v));
    }
}

/// Removing the entry at an index removes its key.
pub proof fn lemma_assoc_remove<K, V>(s: Seq<(K, V)>, i: int)
    requires
        distinct_keys(s),
        0 <= i < s.len(),
    ensures
        assoc_map(s.remove(i)) == assoc_map(s).remove(s[i].0),
    decreases s.len(),
{
    let k = s[i].0;
    if i == s.len() - 1 {
        assert(s.remove(i) =~= s.drop_last());
        lemma_assoc_contains(s.drop_last(), k);
        assert forall|j: int| 0 <= j < s.drop_last().len() implies (#[trigger] s.drop_last()[j]).0 != k by {
            assert(s.drop_last()[j] == s[j]);
        }
        assert(assoc_map(s.drop_last()) =~= assoc_map(s).remove(k));
    } else {
        let t = s.remove(i);
        assert(t.drop_last() =~= s.drop_last().remove(i));
        assert(distinct_keys(s.drop_last())) by {
            assert forall|a: int, b: int| 0 <= a < b < s.drop_last().len()
                implies (#[trigger] s.drop_last()[a]).0 != (#[trigger] s.drop_last()[b]).0 by {
                assert(s.drop_last()[a] == s[a]);
                assert(s.drop_last()[b] == s[b]);
            }
        }
        assert(s.drop_last()[i] == s[i]);
        lemma_assoc_remove(s.drop_last(), i);
        assert(t.last() == s.last());
        assert(k != s.last().0);
        assert(assoc_map(t) =~= assoc_map(s).remove(k));
    }
}

/// Distinct keys survive removing an entry.
pub proof fn lemma_distinct_remove<K, V>(s: Seq<(K, V)>, i: int)
    requires
        distinct_keys(s),
        0 <= i < s.len(),
    ensures
        distinct_keys(s.remove(i)),
        forall|j: int| 0 <= j < s.remove(i).len() ==> (#[trigger] s.remove(i)[j]).0 != s[i].0,
{
    let t = s.remove(i);
    assert forall|a: int, b: int| 0 <= a < b < t.len() implies (#[trigger] t[a]).0 != (#[trigger] t[b]).0 by {
        assert(t[a] == (if a < i { s[a] } else { s[a + 1] }));
        assert(t[b] == (if b < i { s[b] } else { s[b + 1] }));
    }
    assert forall|j: int| 0 <= j < t.len() implies (#[trigger] t[j]).0 != s[i].0 by {
        assert(t[j] == (if j < i { s[j] } else { s[j + 1] }));
    }
}

/// Distinct keys survive appending a fresh key.
pub proof fn lemma_distinct_push<K, V>(s: Seq<(K, V)>, k: K, v: V)
    requires
        distinct_keys(s),
        forall|i: int| 0 <= i < s.len() ==> (#[trigger] s[i]).0 != k,
    ensures
        distinct_keys(s.push((k, v))),
{
}

/// Distinct keys survive replacing a value in place.
pub proof fn lemma_distinct_update<K, V>(s: Seq<(K, V)>, i: int, v: V)
    requires
        distinct_keys(s),
        0 <= i < s.len(),
    ensures
        distinct_keys(s.update(i, (s[i].0, v))),
{
}

/// A duplicate-free sequence read as a set: appending a fresh element
/// inserts it.
pub proof fn lemma_set_push<A>(s: Seq<A>, x: A)
    requires
        s.no_duplicates(),
        !s.contains(x),
    ensures
        s.push(x).to_set() == s.to_set().insert(x),
        s.push(x).no_duplicates(),
{
    let t = s.push(x);
    assert forall|a: A| t.to_set().contains(a) implies s.to_set().contains(a) || a == x by {
        let j = choose|j: int| 0 <= j < t.len() && t[j] == a;
        if j < s.len() {
            assert(s[j] == a);
        }
    }
    assert forall|a: A| s.to_set().contains(a) || a == x implies t.to_set().contains(a) by {
        if s.contains(a) {
            let j = choose|j: int| 0 <= j < s.len() && s[j] == a;
            assert(t[j] == a);
        } else {
            assert(t[s.len() as int] == a);
        }
    }
    assert(t.to_set() =~= s.to_set().insert(x));
    assert forall|p: int, q: int| 0 <= p < t.len() && 0 <= q < t.len() && p != q implies t[p] != t[q] by {
        if p < s.len() && q < s.len() {
        } else if q == s.len() {
            assert(s[p] == t[p]);
        } else {
            assert(s[q] == t[q]);
        }
    }
}

/// A duplicate-free sequence read as a set: removing the entry at an index
/// removes its element.
pub proof fn lemma_set_remove<A>(s: Seq<A>, i: int)
    requires
        s.no_duplicates(),
        0 <= i < s.len(),
    ensures
        s.remove(i).to_set() == s.to_set().remove(s[i]),
        s.remove(i).no_duplicates(),
{
    let t = s.remove(i);
    assert forall|a: A| t.to_set().contains(a) implies s.to_set().contains(a) && a != s[i] by {
        let j = choose|j: int| 0 <= j < t.len() && t[j] == a;
        let k = if j < i { j } else { j + 1 };
        assert(s[k] == a);
        assert(k != i);
    }
    assert forall|a: A| s.to_set().contains(a) && a != s[i] implies t.to_set().contains(a) by {
        let k = choose|k: int| 0 <= k < s.len() && s[k] == a;
        assert(k != i);
        let j = if k < i { k } else { k - 1 };
        assert(t[j] == a);
    }
    assert(t.to_set() =~= s.to_set().remove(s[i]));
    assert forall|p: int, q: int| 0 <= p < t.len() && 0 <= q < t.len() && p != q implies t[p] != t[q] by {
        assert(t[p] == (if p < i { s[p] } else { s[p + 1] }));
        assert(t[q] == (if q < i { s[q] } else { s[q + 1] }));
    }
}

} // verus!
