//! Association lists as finite maps: the mathematics behind the tables of
//! this crate, which keep their entries in a vector and look them up by key.

use vstd::prelude::*;

verus! {

/// Whether some pair of `s` has the key `k`.
pub open spec fn has_key<K, V>(s: Seq<(K, V)>, k: K) -> bool {
    exists|i: int| 0 <= i < s.len() && (#[trigger] s[i]).0 == k
}

/// No two pairs of `s` share a key.
pub open spec fn distinct_keys<K, V>(s: Seq<(K, V)>) -> bool {
    forall|i: int, j: int| 0 <= i < j < s.len() ==> (#[trigger] s[i]).0 != (#[trigger] s[j]).0
}

/// A position at which `s` holds the key `k`, if it holds it at all.
pub open spec fn position_of<K, V>(s: Seq<(K, V)>, k: K) -> int {
    choose|i: int| 0 <= i < s.len() && (#[trigger] s[i]).0 == k
}

/// The map that sends each key of `s` to the value paired with it.
pub open spec fn as_map<K, V>(s: Seq<(K, V)>) -> Map<K, V> {
    Map::new(|k: K| has_key(s, k), |k: K| s[position_of(s, k)].1)
}

/// With distinct keys, the pair at position `i` is what the map holds for
/// its key.
pub proof fn lemma_pair_is_mapped<K, V>(s: Seq<(K, V)>, i: int)
    requires
        distinct_keys(s),
        0 <= i < s.len(),
    ensures
        as_map(s).contains_key(s[i].0),
        as_map(s)[s[i].0] == s[i].1,
{
    let k = s[i].0;
    assert(has_key(s, k));
    let j = position_of(s, k);
    assert(0 <= j < s.len() && s[j].0 == k);
    if j < i {
        assert(s[j].0 != s[i].0);
    } else if i < j {
        assert(s[i].0 != s[j].0);
    }
}

/// A key that no pair carries is not in the map.
pub proof fn lemma_absent_is_unmapped<K, V>(s: Seq<(K, V)>, k: K)
    requires
        forall|i: int| 0 <= i < s.len() ==> (#[trigger] s[i]).0 != k,
    ensures
        !as_map(s).contains_key(k),
{
}

/// The empty list is the empty map.
pub proof fn lemma_empty_is_empty<K, V>(s: Seq<(K, V)>)
    requires
        s.len() == 0,
    ensures
        as_map(s) == Map::<K, V>::empty(),
{
    assert(as_map(s) =~= Map::<K, V>::empty());
}

/// Appending a pair under a new key inserts it into the map.
pub proof fn lemma_push_inserts<K, V>(s: Seq<(K, V)>, k: K, v: V)
    requires
        distinct_keys(s),
        !has_key(s, k),
    ensures
        distinct_keys(s.push((k, v))),
        as_map(s.push((k, v))) == as_map(s).insert(k, v),
{
    let t = s.push((k, v));
    assert forall|i: int, j: int| 0 <= i < j < t.len() implies (#[trigger] t[i]).0 != (
    #[trigger] t[j]).0 by {
        if j < s.len() {
            assert(s[i].0 != s[j].0);
        } else {
            assert(t[i] == s[i]);
            assert(s[i].0 != k);
        }
    }
    assert forall|x: K| #[trigger] as_map(t).contains_key(x) <==> as_map(s).insert(
        k,
        v,
    ).contains_key(x) by {
        if has_key(t, x) {
            let i = position_of(t, x);
            if i < s.len() {
                assert(s[i].0 == x);
            }
        }
        if has_key(s, x) {
            let i = position_of(s, x);
            assert(t[i].0 == x);
        }
        if x == k {
            assert(t[s.len() as int].0 == k);
        }
    }
    assert forall|x: K| #[trigger] as_map(t).contains_key(x) implies as_map(t)[x] == as_map(
        s,
    ).insert(k, v)[x] by {
        let i = position_of(t, x);
        lemma_pair_is_mapped(t, i);
        if i < s.len() {
            assert(s[i] == t[i]);
            lemma_pair_is_mapped(s, i);
        }
    }
    assert(as_map(t) =~= as_map(s).insert(k, v));
}

/// Replacing the value at position `i` replaces it in the map.
pub proof fn lemma_update_inserts<K, V>(s: Seq<(K, V)>, i: int, v: V)
    requires
        distinct_keys(s),
        0 <= i < s.len(),
    ensures
        distinct_keys(s.update(i, (s[i].0, v))),
        as_map(s.update(i, (s[i].0, v))) == as_map(s).insert(s[i].0, v),
{
    let k = s[i].0;
    let t = s.update(i, (k, v));
    assert forall|a: int, b: int| 0 <= a < b < t.len() implies (#[trigger] t[a]).0 != (
    #[trigger] t[b]).0 by {
        assert(t[a].0 == s[a].0);
        assert(t[b].0 == s[b].0);
        assert(s[a].0 != s[b].0);
    }
    assert forall|x: K| #[trigger] as_map(t).contains_key(x) <==> as_map(s).insert(
        k,
        v,
    ).contains_key(x) by {
        if has_key(t, x) {
            let j = position_of(t, x);
            assert(s[j].0 == x);
        }
        if has_key(s, x) {
            let j = position_of(s, x);
            assert(t[j].0 == x);
        }
        if x == k {
            assert(t[i].0 == k);
        }
    }
    assert forall|x: K| #[trigger] as_map(t).contains_key(x) implies as_map(t)[x] == as_map(
        s,
    ).insert(k, v)[x] by {
        let j = position_of(t, x);
        lemma_pair_is_mapped(t, j);
        if j != i {
            assert(s[j] == t[j]);
            lemma_pair_is_mapped(s, j);
        }
    }
    assert(as_map(t) =~= as_map(s).insert(k, v));
}

} // verus!
