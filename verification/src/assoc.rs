//! Association lists as finite maps: the model behind the library's small
//! key-value stores.

use vstd::prelude::*;

verus! {

/// The map that a list of pairs denotes when it is read from left to right,
/// a later pair replacing an earlier one under the same key.
pub open spec fn assoc_map<K, V>(pairs: Seq<(K, V)>) -> Map<K, V>
    decreases pairs.len(),
{
    if pairs.len() == 0 {
        Map::empty()
    } else {
        assoc_map(pairs.drop_last()).insert(pairs.last().0, pairs.last().1)
    }
}

/// No key occurs twice in `pairs`.
pub open spec fn distinct_keys<K, V>(pairs: Seq<(K, V)>) -> bool {
    forall|i: int, j: int|
        0 <= i < pairs.len() && 0 <= j < pairs.len() && i != j ==> (#[trigger] pairs[i]).0 != (
        #[trigger] pairs[j]).0
}

/// Every key of the map is the key of some pair.
pub proof fn lemma_assoc_key_has_pair<K, V>(pairs: Seq<(K, V)>, k: K)
    requires
        assoc_map(pairs).contains_key(k),
    ensures
        exists|i: int| 0 <= i < pairs.len() && (#[trigger] pairs[i]).0 == k,
    decreases pairs.len(),
{
    if pairs.len() > 0 {
        if pairs.last().0 == k {
            assert(pairs[pairs.len() - 1].0 == k);
        } else {
            lemma_assoc_key_has_pair(pairs.drop_last(), k);
            let i = choose|i: int|
                0 <= i < pairs.drop_last().len() && (#[trigger] pairs.drop_last()[i]).0 == k;
            assert(pairs[i].0 == k);
        }
    }
}

/// With distinct keys, each pair is an entry of the map.
pub proof fn lemma_assoc_pair_is_entry<K, V>(pairs: Seq<(K, V)>, i: int)
    requires
        distinct_keys(pairs),
        0 <= i < pairs.len(),
    ensures
        assoc_map(pairs).contains_key(pairs[i].0),
        assoc_map(pairs)[pairs[i].0] == pairs[i].1,
    decreases pairs.len(),
{
    let last = pairs.len() - 1;
    if i < last {
        let front = pairs.drop_last();
        assert(distinct_keys(front)) by {
            assert forall|a: int, b: int|
                0 <= a < front.len() && 0 <= b < front.len() && a != b implies (
            #[trigger] front[a]).0 != (#[trigger] front[b]).0 by {
                assert(front[a] == pairs[a] && front[b] == pairs[b]);
            }
        }
        lemma_assoc_pair_is_entry(front, i);
        assert(front[i] == pairs[i]);
        assert(pairs[i].0 != pairs[last].0);
    }
}

/// Appending a pair inserts it into the map.
pub proof fn lemma_assoc_push<K, V>(pairs: Seq<(K, V)>, k: K, v: V)
    ensures
        assoc_map(pairs.push((k, v))) == assoc_map(pairs).insert(k, v),
{
    assert(pairs.push((k, v)).drop_last() =~= pairs);
}

/// With distinct keys, replacing the value of the pair at `i` replaces the
/// value under its key, and the keys stay distinct.
pub proof fn lemma_assoc_replace<K, V>(pairs: Seq<(K, V)>, i: int, v: V)
    requires
        distinct_keys(pairs),
        0 <= i < pairs.len(),
    ensures
        distinct_keys(pairs.update(i, (pairs[i].0, v))),
        assoc_map(pairs.update(i, (pairs[i].0, v))) == assoc_map(pairs).insert(pairs[i].0, v),
{
    let k = pairs[i].0;
    let after = pairs.update(i, (k, v));
    assert(distinct_keys(after)) by {
        assert forall|a: int, b: int|
            0 <= a < after.len() && 0 <= b < after.len() && a != b implies (
        #[trigger] after[a]).0 != (#[trigger] after[b]).0 by {
            assert(after[a].0 == pairs[a].0 && after[b].0 == pairs[b].0);
        }
    }
    let left = assoc_map(after);
    let right = assoc_map(pairs).insert(k, v);
    assert forall|key: K| left.contains_key(key) <==> right.contains_key(key) by {
        if left.contains_key(key) {
            lemma_assoc_key_has_pair(after, key);
            let j = choose|j: int| 0 <= j < after.len() && (#[trigger] after[j]).0 == key;
            lemma_assoc_pair_is_entry(pairs, j);
        }
        if right.contains_key(key) && key != k {
            lemma_assoc_key_has_pair(pairs, key);
            let j = choose|j: int| 0 <= j < pairs.len() && (#[trigger] pairs[j]).0 == key;
            lemma_assoc_pair_is_entry(after, j);
        }
        lemma_assoc_pair_is_entry(after, i);
    }
    assert forall|key: K| left.contains_key(key) implies left[key] == right[key] by {
        lemma_assoc_key_has_pair(after, key);
        let j = choose|j: int| 0 <= j < after.len() && (#[trigger] after[j]).0 == key;
        lemma_assoc_pair_is_entry(after, j);
        lemma_assoc_pair_is_entry(pairs, j);
    }
    assert(left =~= right);
}

} // verus!
