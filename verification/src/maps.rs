//! Walking through hash maps.
use std::collections::HashMap;
use vstd::prelude::*;

verus! {

/// The keys of a map, in some order.
pub fn keys_of<V>(map: &HashMap<u128, V>) -> (keys: Vec<u128>)
    ensures
        keys@.no_duplicates(),
        forall|k: u128| #[trigger] keys@.contains(k) <==> map@.contains_key(k),
{
    let mut keys: Vec<u128> = Vec::new();
    for key in iter: map.keys()
        invariant
            iter.seq() == vstd::std_specs::iter::IteratorSpec::remaining(&map.keys()),
            keys@ == iter.seq().unref().take(iter.index()),
    {
        keys.push(*key);
        assert(keys@ =~= iter.seq().unref().take(iter.index() + 1));
    }
    let ghost all = vstd::std_specs::iter::IteratorSpec::remaining(&map.keys()).unref();
    assert(keys@ =~= all);
    assert forall|k: u128| #[trigger] keys@.contains(k) <==> map@.contains_key(k) by {
        assert(all.to_set().contains(k) == all.contains(k));
    }
    keys
}

} // verus!
