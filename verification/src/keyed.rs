//! Sequences of keyed values, and the maps that they spell out.

use vstd::prelude::*;

verus! {

/// Some pair of `pairs` has the key `key`.
pub open spec fn has_key<V>(pairs: Seq<(Seq<char>, V)>, key: Seq<char>) -> bool {
    exists|i: int| 0 <= i < pairs.len() && (#[trigger] pairs[i]).0 == key
}

/// The position of a pair of `pairs` with the key `key`.
pub open spec fn position_of<V>(pairs: Seq<(Seq<char>, V)>, key: Seq<char>) -> int {
    choose|i: int| 0 <= i < pairs.len() && (#[trigger] pairs[i]).0 == key
}

/// No two pairs of `pairs` have the same key.
pub open spec fn distinct_keys<V>(pairs: Seq<(Seq<char>, V)>) -> bool {
    forall|i: int, j: int|
        0 <= i < j < pairs.len() ==> (#[trigger] pairs[i]).0 != (#[trigger] pairs[j]).0
}

/// The map that `pairs` spell out: each key with the value of its pair.
pub open spec fn map_of<V>(pairs: Seq<(Seq<char>, V)>) -> Map<Seq<char>, V> {
    Map::new(
        |key: Seq<char>| has_key(pairs, key),
        |key: Seq<char>| pairs[position_of(pairs, key)].1,
    )
}

/// With distinct keys, the map holds exactly the pairs.
pub proof fn lemma_map_of_pairs<V>(pairs: Seq<(Seq<char>, V)>)
    requires
        distinct_keys(pairs),
    ensures
        forall|i: int|
            0 <= i < pairs.len() ==> map_of(pairs).contains_pair(
                (#[trigger] pairs[i]).0,
                pairs[i].1,
            ),
        forall|key: Seq<char>| #[trigger]
            map_of(pairs).contains_key(key) ==> 0 <= position_of(pairs, key) < pairs.len()
                && pairs[position_of(pairs, key)].0 == key,
{
    assert forall|i: int| 0 <= i < pairs.len() implies map_of(pairs).contains_pair(
        (#[trigger] pairs[i]).0,
        pairs[i].1,
    ) by {
        // The position chosen for the key of pair `i` can only be `i`.
        assert(position_of(pairs, pairs[i].0) == i);
    }
}

/// Adding a pair with a new key adds it to the map.
pub proof fn lemma_map_of_push<V>(pairs: Seq<(Seq<char>, V)>, key: Seq<char>, value: V)
    requires
        distinct_keys(pairs),
        !has_key(pairs, key),
    ensures
        distinct_keys(pairs.push((key, value))),
        map_of(pairs.push((key, value))) == map_of(pairs).insert(key, value),
{
    let longer = pairs.push((key, value));
    assert(distinct_keys(longer)) by {
        assert forall|i: int, j: int| 0 <= i < j < longer.len() implies (#[trigger] longer[i]).0
            != (#[trigger] longer[j]).0 by {
            assert(longer[i] == pairs[i]);
        }
    }
    lemma_map_of_pairs(pairs);
    lemma_map_of_pairs(longer);
    assert forall|k: Seq<char>| map_of(pairs).insert(key, value).contains_key(k) implies map_of(
        longer,
    ).contains_pair(k, map_of(pairs).insert(key, value)[k]) by {
        if k == key {
            assert(longer[pairs.len() as int] == (key, value));
        } else {
            assert(longer[position_of(pairs, k)] == pairs[position_of(pairs, k)]);
        }
    }
    assert forall|k: Seq<char>| map_of(longer).contains_key(k) implies map_of(pairs).insert(
        key,
        value,
    ).contains_key(k) by {
        if position_of(longer, k) < pairs.len() {
            assert(pairs[position_of(longer, k)].0 == k);
        }
    }
    assert(map_of(longer) =~= map_of(pairs).insert(key, value));
}

/// Replacing the value of a pair replaces it in the map.
pub proof fn lemma_map_of_update<V>(pairs: Seq<(Seq<char>, V)>, i: int, value: V)
    requires
        distinct_keys(pairs),
        0 <= i < pairs.len(),
    ensures
        distinct_keys(pairs.update(i, (pairs[i].0, value))),
        map_of(pairs.update(i, (pairs[i].0, value))) == map_of(pairs).insert(pairs[i].0, value),
{
    let key = pairs[i].0;
    let changed = pairs.update(i, (key, value));
    assert(distinct_keys(changed)) by {
        assert forall|a: int, b: int| 0 <= a < b < changed.len() implies (#[trigger] changed[a]).0
            != (#[trigger] changed[b]).0 by {
            assert(changed[a].0 == pairs[a].0 && changed[b].0 == pairs[b].0);
        }
    }
    lemma_map_of_pairs(pairs);
    lemma_map_of_pairs(changed);
    assert forall|k: Seq<char>| map_of(pairs).insert(key, value).contains_key(k) implies map_of(
        changed,
    ).contains_pair(k, map_of(pairs).insert(key, value)[k]) by {
        let a = if k == key {
            i
        } else {
            position_of(pairs, k)
        };
        assert(changed[a].0 == k);
    }
    assert forall|k: Seq<char>| map_of(changed).contains_key(k) implies map_of(pairs).insert(
        key,
        value,
    ).contains_key(k) by {
        assert(pairs[position_of(changed, k)].0 == k);
    }
    assert(map_of(changed) =~= map_of(pairs).insert(key, value));
}

/// With distinct keys, the map has as many keys as there are pairs.
pub proof fn lemma_map_of_size<V>(pairs: Seq<(Seq<char>, V)>)
    requires
        distinct_keys(pairs),
    ensures
        map_of(pairs).dom().finite(),
        map_of(pairs).dom().len() == pairs.len(),
    decreases pairs.len(),
{
    if pairs.len() == 0 {
        assert(map_of(pairs).dom() =~= Set::<Seq<char>>::empty());
    } else {
        let init = pairs.drop_last();
        let last = pairs.last();
        assert(distinct_keys(init) && !has_key(init, last.0)) by {
            assert forall|i: int| 0 <= i < init.len() implies #[trigger] init[i] == pairs[i] by {}
        }
        lemma_map_of_size(init);
        lemma_map_of_push(init, last.0, last.1);
        assert(pairs =~= init.push((last.0, last.1)));
    }
}

} // verus!
