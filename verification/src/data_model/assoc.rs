//! Sequences of pairs read as finite maps: the model of the library's keyed
//! collections, which keep their entries in a vector.

use vstd::prelude::*;

verus! {

/// The map that a sequence of pairs stands for. Of two pairs with one key the
/// later one counts.
pub open spec fn assoc_map<K, V>(pairs: Seq<(K, V)>) -> Map<K, V>
    decreases pairs.len(),
{
    if pairs.len() == 0 {
        Map::empty()
    } else {
        assoc_map(pairs.drop_last()).insert(pairs.last().0, pairs.last().1)
    }
}

/// The keys of a sequence of pairs, in its order.
pub open spec fn assoc_keys<K, V>(pairs: Seq<(K, V)>) -> Seq<K> {
    Seq::new(pairs.len(), |i: int| pairs[i].0)
}

/// Whether no key occurs twice.
pub open spec fn distinct_keys<K, V>(pairs: Seq<(K, V)>) -> bool {
    forall|i: int, j: int| 0 <= i < j < pairs.len() ==> pairs[i].0 != pairs[j].0
}

/// The keys of the map are the keys of the sequence.
pub proof fn lemma_assoc_keys<K, V>(pairs: Seq<(K, V)>)
    ensures
        forall|key: K|
            assoc_map(pairs).contains_key(key) <==> exists|i: int|
                0 <= i < pairs.len() && (#[trigger] pairs[i]).0 == key,
        assoc_map(pairs).dom().finite(),
    decreases pairs.len(),
{
    if pairs.len() > 0 {
        let front = pairs.drop_last();
        lemma_assoc_keys(front);
        assert forall|key: K|
            assoc_map(pairs).contains_key(key) <==> exists|i: int|
                0 <= i < pairs.len() && (#[trigger] pairs[i]).0 == key by {
            if assoc_map(pairs).contains_key(key) {
                if key == pairs.last().0 {
                    assert(pairs[pairs.len() - 1].0 == key);
                } else {
                    let i = choose|i: int| 0 <= i < front.len() && (#[trigger] front[i]).0 == key;
                    assert(pairs[i].0 == key);
                }
            }
            if exists|i: int| 0 <= i < pairs.len() && (#[trigger] pairs[i]).0 == key {
                let i = choose|i: int| 0 <= i < pairs.len() && (#[trigger] pairs[i]).0 == key;
                if i < front.len() {
                    assert(front[i].0 == key);
                }
            }
        }
    }
}

/// Where no key occurs twice, the map holds each pair's value under its key,
/// and has as many keys as the sequence has pairs.
pub proof fn lemma_assoc_values<K, V>(pairs: Seq<(K, V)>)
    requires
        distinct_keys(pairs),
    ensures
        forall|i: int| 0 <= i < pairs.len() ==> assoc_map(pairs)[(#[trigger] pairs[i]).0] == pairs[i].1,
        assoc_map(pairs).len() == pairs.len(),
    decreases pairs.len(),
{
    lemma_assoc_keys(pairs);
    if pairs.len() > 0 {
        let front = pairs.drop_last();
        lemma_assoc_values(front);
        lemma_assoc_keys(front);
        assert forall|i: int| 0 <= i < pairs.len() implies assoc_map(pairs)[(#[trigger] pairs[i]).0]
            == pairs[i].1 by {
            if i < front.len() {
                assert(front[i].0 != pairs.last().0);
                assert(front[i] == pairs[i]);
            }
        }
        if assoc_map(front).contains_key(pairs.last().0) {
            let i = choose|i: int| 0 <= i < front.len() && (#[trigger] front[i]).0 == pairs.last().0;
            assert(pairs[i].0 == pairs[pairs.len() - 1].0);
        }
    }
}

/// A map is the one that a sequence of pairs with distinct keys stands for,
/// if its keys are those of the sequence and it holds each pair's value
/// under its key.
pub proof fn lemma_assoc_unique<K, V>(pairs: Seq<(K, V)>, map: Map<K, V>)
    requires
        distinct_keys(pairs),
        forall|key: K|
            map.contains_key(key) <==> exists|i: int|
                0 <= i < pairs.len() && (#[trigger] pairs[i]).0 == key,
        forall|i: int| 0 <= i < pairs.len() ==> map[(#[trigger] pairs[i]).0] == pairs[i].1,
    ensures
        assoc_map(pairs) == map,
{
    lemma_assoc_keys(pairs);
    lemma_assoc_values(pairs);
    let view = assoc_map(pairs);
    assert forall|key: K| view.contains_key(key) implies view[key] == map[key] by {
        let i = choose|i: int| 0 <= i < pairs.len() && (#[trigger] pairs[i]).0 == key;
        assert(view[pairs[i].0] == pairs[i].1);
    }
    assert(view =~= map);
}

/// Replacing the value of one pair amounts to an insertion under its key.
pub proof fn lemma_assoc_update<K, V>(pairs: Seq<(K, V)>, at: int, value: V)
    requires
        distinct_keys(pairs),
        0 <= at < pairs.len(),
    ensures
        distinct_keys(pairs.update(at, (pairs[at].0, value))),
        assoc_map(pairs.update(at, (pairs[at].0, value))) == assoc_map(pairs).insert(
            pairs[at].0,
            value,
        ),
        assoc_keys(pairs.update(at, (pairs[at].0, value))) == assoc_keys(pairs),
{
    let after = pairs.update(at, (pairs[at].0, value));
    let target = assoc_map(pairs).insert(pairs[at].0, value);
    lemma_assoc_keys(pairs);
    lemma_assoc_values(pairs);
    assert forall|key: K|
        target.contains_key(key) <==> exists|i: int|
            0 <= i < after.len() && (#[trigger] after[i]).0 == key by {
        if target.contains_key(key) {
            if key == pairs[at].0 {
                assert(after[at].0 == key);
            } else {
                let i = choose|i: int| 0 <= i < pairs.len() && (#[trigger] pairs[i]).0 == key;
                assert(after[i].0 == key);
            }
        }
        if exists|i: int| 0 <= i < after.len() && (#[trigger] after[i]).0 == key {
            let i = choose|i: int| 0 <= i < after.len() && (#[trigger] after[i]).0 == key;
            assert(pairs[i].0 == key);
        }
    }
    assert forall|i: int| 0 <= i < after.len() implies target[(#[trigger] after[i]).0]
        == after[i].1 by {
        if i != at {
            assert(pairs[i].0 != pairs[at].0);
            assert(assoc_map(pairs)[pairs[i].0] == pairs[i].1);
        }
    }
    lemma_assoc_unique(after, target);
    assert(assoc_keys(after) =~= assoc_keys(pairs));
}

/// Taking one pair out amounts to removing its key.
pub proof fn lemma_assoc_remove<K, V>(pairs: Seq<(K, V)>, at: int)
    requires
        distinct_keys(pairs),
        0 <= at < pairs.len(),
    ensures
        distinct_keys(pairs.remove(at)),
        assoc_map(pairs.remove(at)) == assoc_map(pairs).remove(pairs[at].0),
        assoc_keys(pairs.remove(at)) == assoc_keys(pairs).remove(at),
{
    let after = pairs.remove(at);
    let target = assoc_map(pairs).remove(pairs[at].0);
    lemma_assoc_keys(pairs);
    lemma_assoc_values(pairs);
    assert(forall|i: int| 0 <= i < at ==> #[trigger] after[i] == pairs[i]);
    assert(forall|i: int| at <= i < after.len() ==> #[trigger] after[i] == pairs[i + 1]);
    assert forall|key: K|
        target.contains_key(key) <==> exists|i: int|
            0 <= i < after.len() && (#[trigger] after[i]).0 == key by {
        if target.contains_key(key) {
            let i = choose|i: int| 0 <= i < pairs.len() && (#[trigger] pairs[i]).0 == key;
            if i < at {
                assert(after[i].0 == key);
            } else {
                assert(after[i - 1].0 == key);
            }
        }
        if exists|i: int| 0 <= i < after.len() && (#[trigger] after[i]).0 == key {
            let i = choose|i: int| 0 <= i < after.len() && (#[trigger] after[i]).0 == key;
            if i < at {
                assert(pairs[i].0 == key);
            } else {
                assert(pairs[i + 1].0 == key);
            }
        }
    }
    assert forall|i: int| 0 <= i < after.len() implies target[(#[trigger] after[i]).0]
        == after[i].1 by {
        if i < at {
            assert(assoc_map(pairs)[pairs[i].0] == pairs[i].1);
        } else {
            assert(assoc_map(pairs)[pairs[i + 1].0] == pairs[i + 1].1);
        }
    }
    lemma_assoc_unique(after, target);
    assert(assoc_keys(after) =~= assoc_keys(pairs).remove(at));
}

/// A new pair at the end amounts to an insertion; its key stays distinct
/// where the map did not hold it.
pub proof fn lemma_assoc_push<K, V>(pairs: Seq<(K, V)>, key: K, value: V)
    requires
        distinct_keys(pairs),
        !assoc_map(pairs).contains_key(key),
    ensures
        distinct_keys(pairs.push((key, value))),
        assoc_map(pairs.push((key, value))) == assoc_map(pairs).insert(key, value),
        assoc_keys(pairs.push((key, value))) == assoc_keys(pairs).push(key),
{
    let after = pairs.push((key, value));
    lemma_assoc_keys(pairs);
    assert(after.drop_last() == pairs);
    assert forall|i: int, j: int| 0 <= i < j < after.len() implies after[i].0 != after[j].0 by {
        if j == pairs.len() {
            assert(pairs[i].0 != key);
        }
    }
    assert(assoc_keys(after) =~= assoc_keys(pairs).push(key));
}

/// The keys of a sequence of pairs with distinct keys are pairwise distinct
/// and make up the domain of its map.
pub proof fn lemma_assoc_order<K, V>(pairs: Seq<(K, V)>)
    requires
        distinct_keys(pairs),
    ensures
        assoc_keys(pairs).no_duplicates(),
        assoc_keys(pairs).to_set() == assoc_map(pairs).dom(),
        assoc_keys(pairs).len() == assoc_map(pairs).len(),
{
    lemma_assoc_keys(pairs);
    lemma_assoc_values(pairs);
    let keys = assoc_keys(pairs);
    assert forall|key: K| keys.to_set().contains(key) <==> assoc_map(pairs).dom().contains(key) by {
        if keys.contains(key) {
            let i = choose|i: int| 0 <= i < keys.len() && keys[i] == key;
            assert(pairs[i].0 == key);
        }
        if assoc_map(pairs).contains_key(key) {
            let i = choose|i: int| 0 <= i < pairs.len() && (#[trigger] pairs[i]).0 == key;
            assert(keys[i] == key);
        }
    }
    assert(keys.to_set() =~= assoc_map(pairs).dom());
}

} // verus!
