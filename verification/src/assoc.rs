use vstd::prelude::*;

verus! {

/// No key occurs twice among `pairs`.
pub open spec fn keys_distinct<V>(pairs: Seq<(Seq<char>, V)>) -> bool {
    forall|i: int, j: int| 0 <= i < j < pairs.len() ==> pairs[i].0 != pairs[j].0
}

/// The mapping that `pairs` spell out, a later pair replacing an earlier one
/// with the same key.
pub open spec fn map_of<V>(pairs: Seq<(Seq<char>, V)>) -> Map<Seq<char>, V>
    decreases pairs.len(),
{
    if pairs.len() == 0 {
        Map::empty()
    } else {
        map_of(pairs.drop_last()).insert(pairs.last().0, pairs.last().1)
    }
}

/// Some pair of `pairs` has the key `key`.
pub open spec fn has_key<V>(pairs: Seq<(Seq<char>, V)>, key: Seq<char>) -> bool {
    exists|i: int| 0 <= i < pairs.len() && #[trigger] pairs[i].0 == key
}

/// The keys of `map_of(pairs)` are the keys that occur in `pairs`.
pub proof fn lemma_map_of_keys<V>(pairs: Seq<(Seq<char>, V)>, key: Seq<char>)
    ensures
        map_of(pairs).contains_key(key) <==> has_key(pairs, key),
    decreases pairs.len(),
{
    if pairs.len() > 0 {
        let front = pairs.drop_last();
        lemma_map_of_keys(front, key);
        if has_key(front, key) {
            let i = choose|i: int| 0 <= i < front.len() && #[trigger] front[i].0 == key;
            assert(pairs[i].0 == key);
        }
        if has_key(pairs, key) {
            let i = choose|i: int| 0 <= i < pairs.len() && #[trigger] pairs[i].0 == key;
            if i < front.len() {
                assert(front[i].0 == key);
            }
        }
        assert(pairs[pairs.len() - 1].0 == pairs.last().0);
    }
}

/// Where keys are distinct, each pair's value is what the mapping gives for
/// its key.
pub proof fn lemma_map_of_value<V>(pairs: Seq<(Seq<char>, V)>, i: int)
    requires
        keys_distinct(pairs),
        0 <= i < pairs.len(),
    ensures
        map_of(pairs).contains_key(pairs[i].0),
        map_of(pairs)[pairs[i].0] == pairs[i].1,
    decreases pairs.len(),
{
    let front = pairs.drop_last();
    if i < pairs.len() - 1 {
        assert(keys_distinct(front)) by {
            assert forall|a: int, b: int| 0 <= a < b < front.len() implies front[a].0
                != front[b].0 by {
                assert(front[a] == pairs[a] && front[b] == pairs[b]);
            }
        }
        lemma_map_of_value(front, i);
        assert(front[i] == pairs[i]);
    }
}

/// Replacing the value of the pair at `i` is an insertion under that pair's key.
pub proof fn lemma_map_of_update<V>(pairs: Seq<(Seq<char>, V)>, i: int, value: V)
    requires
        keys_distinct(pairs),
        0 <= i < pairs.len(),
    ensures
        keys_distinct(pairs.update(i, (pairs[i].0, value))),
        map_of(pairs.update(i, (pairs[i].0, value))) == map_of(pairs).insert(pairs[i].0, value),
    decreases pairs.len(),
{
    let changed = pairs.update(i, (pairs[i].0, value));
    let front = pairs.drop_last();
    assert(keys_distinct(changed)) by {
        assert forall|a: int, b: int| 0 <= a < b < changed.len() implies changed[a].0
            != changed[b].0 by {
            assert(changed[a].0 == pairs[a].0 && changed[b].0 == pairs[b].0);
        }
    }
    assert(keys_distinct(front)) by {
        assert forall|a: int, b: int| 0 <= a < b < front.len() implies front[a].0 != front[b].0 by {
            assert(front[a] == pairs[a] && front[b] == pairs[b]);
        }
    }
    if i == pairs.len() - 1 {
        assert(changed.drop_last() =~= front);
        assert(map_of(changed) =~= map_of(pairs).insert(pairs[i].0, value));
    } else {
        lemma_map_of_update(front, i, value);
        assert(front[i] == pairs[i]);
        assert(changed.drop_last() =~= front.update(i, (pairs[i].0, value)));
        assert(pairs.last().0 != pairs[i].0);
        assert(map_of(changed) =~= map_of(pairs).insert(pairs[i].0, value));
    }
}

/// With distinct keys the mapping has as many keys as there are pairs.
pub proof fn lemma_map_of_len<V>(pairs: Seq<(Seq<char>, V)>)
    requires
        keys_distinct(pairs),
    ensures
        map_of(pairs).dom().finite(),
        map_of(pairs).dom().len() == pairs.len(),
    decreases pairs.len(),
{
    if pairs.len() > 0 {
        let front = pairs.drop_last();
        assert(keys_distinct(front)) by {
            assert forall|a: int, b: int| 0 <= a < b < front.len() implies front[a].0 != front[b].0 by {
                assert(front[a] == pairs[a] && front[b] == pairs[b]);
            }
        }
        lemma_map_of_len(front);
        lemma_map_of_keys(front, pairs.last().0);
        if has_key(front, pairs.last().0) {
            let i = choose|i: int| 0 <= i < front.len() && #[trigger] front[i].0 == pairs.last().0;
            assert(front[i] == pairs[i]);
            assert(false);
        }
    }
}

/// The place of the pair with the key `key`, where there is one.
pub open spec fn key_index<V>(pairs: Seq<(Seq<char>, V)>, key: Seq<char>) -> int {
    choose|i: int| 0 <= i < pairs.len() && #[trigger] pairs[i].0 == key
}

/// The first `n` of pairs with distinct keys have distinct keys.
pub proof fn lemma_front_distinct<V>(pairs: Seq<(Seq<char>, V)>)
    requires
        keys_distinct(pairs),
        pairs.len() > 0,
    ensures
        keys_distinct(pairs.drop_last()),
        !has_key(pairs.drop_last(), pairs.last().0),
{
    let front = pairs.drop_last();
    assert forall|a: int, b: int| 0 <= a < b < front.len() implies front[a].0 != front[b].0 by {
        assert(front[a] == pairs[a] && front[b] == pairs[b]);
    }
    if has_key(front, pairs.last().0) {
        let i = choose|i: int| 0 <= i < front.len() && #[trigger] front[i].0 == pairs.last().0;
        assert(front[i] == pairs[i]);
        assert(pairs[i].0 != pairs[pairs.len() - 1].0);
    }
}

/// A pair under a key that is not there yet is an insertion, and keeps keys
/// distinct.
pub proof fn lemma_map_of_push<V>(pairs: Seq<(Seq<char>, V)>, key: Seq<char>, value: V)
    requires
        keys_distinct(pairs),
        !has_key(pairs, key),
    ensures
        keys_distinct(pairs.push((key, value))),
        map_of(pairs.push((key, value))) == map_of(pairs).insert(key, value),
{
    let longer = pairs.push((key, value));
    assert(longer.drop_last() =~= pairs);
    assert forall|a: int, b: int| 0 <= a < b < longer.len() implies longer[a].0 != longer[b].0 by {
        if b == pairs.len() {
            assert(pairs[a].0 != key);
        }
    }
}

/// Taking out the pair at `i` removes its key, and keeps keys distinct.
pub proof fn lemma_map_of_remove<V>(pairs: Seq<(Seq<char>, V)>, i: int)
    requires
        keys_distinct(pairs),
        0 <= i < pairs.len(),
    ensures
        keys_distinct(pairs.remove(i)),
        map_of(pairs.remove(i)) == map_of(pairs).remove(pairs[i].0),
    decreases pairs.len(),
{
    let shorter = pairs.remove(i);
    let front = pairs.drop_last();
    lemma_front_distinct(pairs);
    assert forall|a: int, b: int| 0 <= a < b < shorter.len() implies shorter[a].0
        != shorter[b].0 by {
        let a0 = if a < i { a } else { a + 1 };
        let b0 = if b < i { b } else { b + 1 };
        assert(shorter[a] == pairs[a0] && shorter[b] == pairs[b0]);
    }
    if i == pairs.len() - 1 {
        assert(shorter =~= front);
        lemma_map_of_keys(front, pairs[i].0);
        assert(map_of(shorter) =~= map_of(pairs).remove(pairs[i].0));
    } else {
        lemma_map_of_remove(front, i);
        assert(front[i] == pairs[i]);
        assert(shorter.drop_last() =~= front.remove(i));
        assert(shorter.last() == pairs.last());
        assert(pairs[i].0 != pairs[pairs.len() - 1].0);
        assert(map_of(shorter) =~= map_of(pairs).remove(pairs[i].0));
    }
}

} // verus!
