//! Association lists: a sequence of key-value pairs with distinct keys, read
//! as a map.

use vstd::prelude::*;

verus! {

/// No key occurs at two places of `pairs`.
pub open spec fn keys_distinct<K, V>(pairs: Seq<(K, V)>) -> bool {
    forall|i: int, j: int| 0 <= i < j < pairs.len() ==> pairs[i].0 != pairs[j].0
}

/// Some pair of `pairs` has the key `key`.
pub open spec fn has_key<K, V>(pairs: Seq<(K, V)>, key: K) -> bool {
    exists|i: int| 0 <= i < pairs.len() && #[trigger] pairs[i].0 == key
}

/// A place of `pairs` that holds `key`, if there is one.
pub open spec fn index_of<K, V>(pairs: Seq<(K, V)>, key: K) -> int {
    choose|i: int| 0 <= i < pairs.len() && #[trigger] pairs[i].0 == key
}

/// The map that sends each key of `pairs` to the value beside it.
pub open spec fn to_map<K, V>(pairs: Seq<(K, V)>) -> Map<K, V> {
    Map::new(|key: K| has_key(pairs, key), |key: K| pairs[index_of(pairs, key)].1)
}

/// The pair at place `i` is what the map holds under its key.
pub proof fn lemma_to_map_at<K, V>(pairs: Seq<(K, V)>, i: int)
    requires
        keys_distinct(pairs),
        0 <= i < pairs.len(),
    ensures
        to_map(pairs).contains_key(pairs[i].0),
        to_map(pairs)[pairs[i].0] == pairs[i].1,
        index_of(pairs, pairs[i].0) == i,
{
    let key = pairs[i].0;
    assert(pairs[i].0 == key);
    let j = index_of(pairs, key);
    assert(0 <= j < pairs.len() && pairs[j].0 == key);
    if j < i {
        assert(pairs[j].0 != pairs[i].0);
    } else if i < j {
        assert(pairs[i].0 != pairs[j].0);
    }
}

/// The empty list is the empty map.
pub proof fn lemma_to_map_empty<K, V>()
    ensures
        keys_distinct(Seq::<(K, V)>::empty()),
        to_map(Seq::<(K, V)>::empty()) == Map::<K, V>::empty(),
{
    assert(to_map(Seq::<(K, V)>::empty()) =~= Map::<K, V>::empty());
}

/// Appending a pair with a fresh key inserts it into the map.
pub proof fn lemma_to_map_push<K, V>(pairs: Seq<(K, V)>, key: K, value: V)
    requires
        keys_distinct(pairs),
        !has_key(pairs, key),
    ensures
        keys_distinct(pairs.push((key, value))),
        to_map(pairs.push((key, value))) == to_map(pairs).insert(key, value),
{
    let longer = pairs.push((key, value));
    assert forall|i: int, j: int| 0 <= i < j < longer.len() implies longer[i].0 != longer[j].0 by {
        if j == pairs.len() {
            assert(longer[i] == pairs[i]);
            if pairs[i].0 == key {
                assert(has_key(pairs, key));
            }
        } else {
            assert(longer[i] == pairs[i] && longer[j] == pairs[j]);
        }
    }
    assert forall|k: K| has_key(longer, k) <==> (k == key || has_key(pairs, k)) by {
        if has_key(longer, k) {
            let i = index_of(longer, k);
            if i < pairs.len() {
                assert(pairs[i].0 == k);
            }
        }
        if k == key {
            assert(longer[pairs.len() as int].0 == k);
        }
        if has_key(pairs, k) {
            let i = index_of(pairs, k);
            assert(longer[i].0 == k);
        }
    }
    assert forall|k: K| has_key(longer, k) implies #[trigger] to_map(longer)[k] == to_map(
        pairs,
    ).insert(key, value)[k] by {
        let i = index_of(longer, k);
        lemma_to_map_at(longer, i);
        if i < pairs.len() {
            assert(longer[i] == pairs[i]);
            lemma_to_map_at(pairs, i);
        }
    }
    assert(to_map(longer) =~= to_map(pairs).insert(key, value));
}

/// Replacing the value at place `i` replaces it in the map.
pub proof fn lemma_to_map_update<K, V>(pairs: Seq<(K, V)>, i: int, value: V)
    requires
        keys_distinct(pairs),
        0 <= i < pairs.len(),
    ensures
        keys_distinct(pairs.update(i, (pairs[i].0, value))),
        to_map(pairs.update(i, (pairs[i].0, value))) == to_map(pairs).insert(pairs[i].0, value),
{
    let key = pairs[i].0;
    let changed = pairs.update(i, (key, value));
    assert forall|a: int, b: int| 0 <= a < b < changed.len() implies changed[a].0
        != changed[b].0 by {
        assert(changed[a].0 == pairs[a].0 && changed[b].0 == pairs[b].0);
    }
    assert forall|k: K| has_key(changed, k) <==> has_key(pairs, k) by {
        if has_key(changed, k) {
            let j = index_of(changed, k);
            assert(pairs[j].0 == k);
        }
        if has_key(pairs, k) {
            let j = index_of(pairs, k);
            assert(changed[j].0 == k);
        }
    }
    assert(pairs[i].0 == key);
    assert forall|k: K| has_key(changed, k) implies #[trigger] to_map(changed)[k] == to_map(
        pairs,
    ).insert(key, value)[k] by {
        let j = index_of(changed, k);
        lemma_to_map_at(changed, j);
        if j != i {
            assert(changed[j] == pairs[j]);
            lemma_to_map_at(pairs, j);
        }
    }
    assert(to_map(changed) =~= to_map(pairs).insert(key, value));
}

/// The list with `f` applied to every value, the keys left as they are.
pub open spec fn map_pair_values<K, V, W>(pairs: Seq<(K, V)>, f: spec_fn(V) -> W) -> Seq<(K, W)> {
    Seq::new(pairs.len(), |i: int| (pairs[i].0, f(pairs[i].1)))
}

/// Applying `f` to every value of the list applies it to every value of the
/// map.
pub proof fn lemma_to_map_values<K, V, W>(pairs: Seq<(K, V)>, f: spec_fn(V) -> W)
    requires
        keys_distinct(pairs),
    ensures
        keys_distinct(map_pair_values(pairs, f)),
        to_map(map_pair_values(pairs, f)) == to_map(pairs).map_values(f),
{
    let mapped = map_pair_values(pairs, f);
    assert forall|a: int, b: int| 0 <= a < b < mapped.len() implies mapped[a].0 != mapped[b].0 by {
        assert(mapped[a].0 == pairs[a].0 && mapped[b].0 == pairs[b].0);
    }
    assert forall|k: K| has_key(mapped, k) <==> has_key(pairs, k) by {
        if has_key(mapped, k) {
            let j = index_of(mapped, k);
            assert(pairs[j].0 == k);
        }
        if has_key(pairs, k) {
            let j = index_of(pairs, k);
            assert(mapped[j].0 == k);
        }
    }
    assert forall|k: K| has_key(mapped, k) implies #[trigger] to_map(mapped)[k] == to_map(
        pairs,
    ).map_values(f)[k] by {
        let j = index_of(mapped, k);
        lemma_to_map_at(mapped, j);
        lemma_to_map_at(pairs, j);
    }
    assert(to_map(mapped) =~= to_map(pairs).map_values(f));
}

} // verus!
