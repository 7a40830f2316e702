//! A table of values keyed by component identifier, held in a `HashMap` keyed
//! by the identifier's 128-bit value.

use std::collections::HashMap;
use vstd::prelude::*;
use vstd::std_specs::hash::spec_keys_iter;
use vstd::std_specs::iter::IteratorSpec;
use crate::api::ComponentId;

verus! {

broadcast use vstd::std_specs::hash::group_hash_axioms;

/// Values keyed by component identifier.
pub struct IdTable<V> {
    map: HashMap<u128, V>,
}

impl<V: View> View for IdTable<V> {
    type V = Map<ComponentId, V::V>;

    closed spec fn view(&self) -> Map<ComponentId, V::V> {
        Map::new(|k: ComponentId| self.map@.contains_key(k.0), |k: ComponentId| self.map@[k.0]@)
    }
}

/// `ks` lists the keys of `m`, each once, in some order.
pub open spec fn lists_keys<V>(ks: Seq<ComponentId>, m: Map<ComponentId, V>) -> bool {
    &&& ks.no_duplicates()
    &&& forall|k: ComponentId| #[trigger] ks.contains(k) <==> m.contains_key(k)
}

impl<V: View> IdTable<V> {
    /// An empty table.
    pub fn new() -> (t: Self)
        ensures
            t@ == Map::<ComponentId, V::V>::empty(),
    {
        let t = IdTable { map: HashMap::new() };
        assert(t@ =~= Map::<ComponentId, V::V>::empty());
        t
    }

    /// The keys, each once, in the order in which the map hands them out;
    /// that order is the map's own and is not stated.
    pub fn keys(&self) -> (r: Vec<ComponentId>)
        ensures
            lists_keys(r@, self@),
    {
        let mut r: Vec<ComponentId> = Vec::new();
        let ghost keys = spec_keys_iter(&self.map).remaining();
        for k in it: self.map.keys()
            invariant
                it.seq() == keys,
                r@ == keys.take(it.index() as int).unref().map_values(|k: u128| ComponentId(k)),
        {
            r.push(ComponentId(*k));
            assert(keys.take(it.index() + 1).unref().map_values(|k: u128| ComponentId(k))
                =~= keys.take(it.index() as int).unref().map_values(|k: u128| ComponentId(k)).push(
                ComponentId(*k),
            ));
        }
        proof {
            let raw = keys.unref();
            assert(r@ =~= raw.map_values(|k: u128| ComponentId(k)));
            assert(raw.to_set() == self.map@.dom());
            assert(keys.no_duplicates());
            assert forall|i: int, j: int|
                0 <= i < r@.len() && 0 <= j < r@.len() && i != j implies r@[i] != r@[j] by {
                assert(raw[i] == *keys[i] && raw[j] == *keys[j]);
                assert(keys[i] != keys[j]);
            }
            assert forall|k: ComponentId| #[trigger] r@.contains(k) <==> self@.contains_key(k) by {
                if r@.contains(k) {
                    let i = choose|i: int| 0 <= i < r@.len() && r@[i] == k;
                    assert(raw.to_set().contains(raw[i]));
                }
                if self@.contains_key(k) {
                    assert(raw.to_set().contains(k.0));
                    let i = choose|i: int| 0 <= i < raw.len() && raw[i] == k.0;
                    assert(r@[i] == k);
                }
            }
        }
        r
    }

    /// The value under `key`, if any.
    pub fn get(&self, key: ComponentId) -> (r: Option<&V>)
        ensures
            match r {
                Some(v) => self@.contains_key(key) && v@ == self@[key],
                None => !self@.contains_key(key),
            },
    {
        self.map.get(&key.0)
    }

    /// Puts `value` under `key`, in place of any value the key had.
    pub fn insert(&mut self, key: ComponentId, value: V)
        ensures
            final(self)@ == old(self)@.insert(key, value@),
    {
        let ghost v = value@;
        let _ = self.map.insert(key.0, value);
        assert(self@ =~= old(self)@.insert(key, v));
    }

    /// Takes the value under `key` out of the table.
    pub fn remove(&mut self, key: ComponentId) -> (r: Option<V>)
        ensures
            final(self)@ == old(self)@.remove(key),
            match r {
                Some(v) => old(self)@.contains_key(key) && v@ == old(self)@[key],
                None => !old(self)@.contains_key(key),
            },
    {
        let r = self.map.remove(&key.0);
        assert(self@ =~= old(self)@.remove(key));
        r
    }
}

} // verus!
