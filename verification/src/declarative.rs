//! Building an ordered map from a list of keys and values.

use std::collections::BTreeMap;
use vstd::prelude::*;

verus! {

/// The map that comes of putting the pairs of `pairs` into an empty map one
/// after the other: of two pairs with the same key the later one stays.
pub open spec fn filled<K, V>(pairs: Seq<(K, V)>) -> Map<K, V>
    decreases pairs.len(),
{
    if pairs.len() == 0 {
        Map::empty()
    } else {
        filled(pairs.drop_last()).insert(pairs.last().0, pairs.last().1)
    }
}

/// The ordered map of the keys and values of `pairs`. Of two pairs with the
/// same key the later one stays.
///
/// What the map holds is known for keys whose order Verus knows to be a
/// total order, such as the integers.
pub fn btreemap<K: Ord, V>(pairs: Vec<(K, V)>) -> (map: BTreeMap<K, V>)
    ensures
        vstd::laws_cmp::obeys_cmp::<K>() ==> map@ == filled(pairs@),
{
    let ghost all = pairs@;
    let ghost mut done: int = 0;
    let mut map: BTreeMap<K, V> = BTreeMap::new();
    for pair in turn: pairs
        invariant
            turn.seq() == all,
            done == turn.index(),
            vstd::laws_cmp::obeys_cmp::<K>() ==> map@ == filled(all.take(done)),
    {
        proof {
            assert(all.take(done + 1).drop_last() =~= all.take(done));
            done = done + 1;
        }
        let (key, value) = pair;
        map.insert(key, value);
    }
    assert(all.take(done) =~= all);
    map
}

} // verus!
