//! Hash maps built from a list of key/value pairs whose length is fixed where
//! it is written.
use std::collections::HashMap;
use std::hash::Hash;
use vstd::prelude::*;
use vstd::std_specs::hash::obeys_key_model;

verus! {

/// The map that inserting `pairs` in order into an empty map gives: a later
/// pair with a key seen before replaces the earlier value.
pub open spec fn map_of_pairs<K, V>(pairs: Seq<(K, V)>) -> Map<K, V>
    decreases pairs.len(),
{
    if pairs.len() == 0 {
        Map::empty()
    } else {
        map_of_pairs(pairs.drop_last()).insert(pairs.last().0, pairs.last().1)
    }
}

/// No two pairs share a key.
pub open spec fn keys_distinct<K, V>(pairs: Seq<(K, V)>) -> bool {
    forall|i: int, j: int| 0 <= i < j < pairs.len() ==> pairs[i].0 != pairs[j].0
}

/// A hash map with one entry per pair, inserted in the order written. Where
/// the key type follows the hashing model, its contents are `map_of_pairs`.
pub fn ahashmap<K: Copy + Eq + Hash, V: Copy, const N: usize>(pairs: [(K, V); N]) -> (r: HashMap<
    K,
    V,
>)
    ensures
        obeys_key_model::<K>() ==> r@ == map_of_pairs(pairs@),
{
    let mut hm: HashMap<K, V> = HashMap::new();
    let mut i: usize = 0;
    while i < N
        invariant
            pairs@.len() == N,
            i <= N,
            obeys_key_model::<K>() ==> hm@ == map_of_pairs(pairs@.subrange(0, i as int)),
        decreases N - i,
    {
        let (k, v) = pairs[i];
        hm.insert(k, v);
        proof {
            assert(pairs@.subrange(0, i + 1).drop_last() =~= pairs@.subrange(0, i as int));
        }
        i = i + 1;
    }
    assert(pairs@.subrange(0, N as int) =~= pairs@);
    hm
}

/// With distinct keys, the map has one entry per pair and each key gives back
/// the value it was paired with.
pub proof fn lemma_distinct_keys_map<K, V>(pairs: Seq<(K, V)>)
    requires
        keys_distinct(pairs),
    ensures
        map_of_pairs(pairs).dom().finite(),
        map_of_pairs(pairs).len() == pairs.len(),
        forall|i: int|
            0 <= i < pairs.len() ==> #[trigger] map_of_pairs(pairs).contains_key(pairs[i].0)
                && map_of_pairs(pairs)[pairs[i].0] == pairs[i].1,
    decreases pairs.len(),
{
    lemma_keys_of_map(pairs);
    if pairs.len() > 0 {
        let front = pairs.drop_last();
        assert(keys_distinct(front));
        lemma_distinct_keys_map(front);
        lemma_keys_of_map(front);
        let m = map_of_pairs(pairs);
        assert forall|i: int| 0 <= i < pairs.len() implies (#[trigger] m.contains_key(pairs[i].0)
            && m[pairs[i].0] == pairs[i].1) by {
            if i < pairs.len() - 1 {
                assert(front[i] == pairs[i]);
                assert(map_of_pairs(front).contains_key(front[i].0));
                assert(pairs[i].0 != pairs[pairs.len() - 1].0);
            }
        }
        assert(!map_of_pairs(front).contains_key(pairs.last().0)) by {
            if map_of_pairs(front).contains_key(pairs.last().0) {
                let j = choose|j: int| 0 <= j < front.len() && front[j].0 == pairs.last().0;
                assert(pairs[j].0 == pairs[pairs.len() - 1].0);
            }
        }
    }
}

/// The keys of `map_of_pairs` are exactly those of the pairs.
proof fn lemma_keys_of_map<K, V>(pairs: Seq<(K, V)>)
    ensures
        map_of_pairs(pairs).dom().finite(),
        forall|k: K|
            #[trigger] map_of_pairs(pairs).contains_key(k) <==> exists|j: int|
                0 <= j < pairs.len() && pairs[j].0 == k,
    decreases pairs.len(),
{
    if pairs.len() > 0 {
        let front = pairs.drop_last();
        lemma_keys_of_map(front);
        assert forall|k: K| #[trigger] map_of_pairs(pairs).contains_key(k) <==> exists|j: int|
            0 <= j < pairs.len() && pairs[j].0 == k by {
            if map_of_pairs(pairs).contains_key(k) && k != pairs.last().0 {
                let j = choose|j: int| 0 <= j < front.len() && front[j].0 == k;
                assert(pairs[j].0 == k);
            }
            if exists|j: int| 0 <= j < pairs.len() && pairs[j].0 == k {
                let j = choose|j: int| 0 <= j < pairs.len() && pairs[j].0 == k;
                if j < pairs.len() - 1 {
                    assert(front[j].0 == k);
                }
            }
        }
    }
}

} // verus!
