//! The link model: which radios hear which, and with what link parameters.
//!
//! Links are directed and keyed by the ids of the two radios. Receivers of a
//! transmitter come out in increasing id order, whatever order the links
//! were added in: the order in which receptions are delivered decides
//! collisions, so it must not depend on anything else.
use vstd::prelude::*;
use std::collections::BTreeMap;
use crate::common::EntityId;
use vstd::laws_cmp::obeys_cmp;
use vstd::std_specs::cmp::OrdSpec;
use vstd::std_specs::iter::IteratorSpec;
use vstd::std_specs::btree::{increasing_seq, key_obeys_cmp_spec};

verus! {

broadcast use {vstd::std_specs::btree::group_btree_axioms, vstd::laws_cmp::group_laws_cmp};

/// Directed links between radios, each with its parameters.
pub struct LinkModel<V> {
    edges: BTreeMap<(u64, u64), V>,
}

impl<V> LinkModel<V> {
    /// The links: the parameters of each (transmitter, receiver) pair of ids.
    pub closed spec fn links(&self) -> Map<(u64, u64), V> {
        self.edges@
    }

    /// An empty link model.
    pub fn new() -> (m: Self)
        ensures
            m.links() == Map::<(u64, u64), V>::empty(),
    {
        LinkModel { edges: BTreeMap::new() }
    }

    /// Add a directed link between two radios, replacing the parameters of
    /// an existing link between them.
    pub fn add_edge(&mut self, from: EntityId, to: EntityId, params: V)
        ensures
            final(self).links() == old(self).links().insert((from.0, to.0), params),
    {
        self.edges.insert((from.0, to.0), params);
    }

    /// The parameters of the link from one radio to another, if there is one.
    pub fn get_link(&self, from: EntityId, to: EntityId) -> (r: Option<&V>)
        ensures
            match r {
                Some(v) => self.links().contains_key((from.0, to.0)) && self.links()[(from.0, to.0)] == *v,
                None => !self.links().contains_key((from.0, to.0)),
            },
    {
        self.edges.get(&(from.0, to.0))
    }

    /// The radios that hear a transmitter, with their link parameters, in
    /// increasing id order.
    pub fn get_receivers(&self, from: EntityId) -> (r: Vec<(EntityId, &V)>)
        ensures
            forall|i: int|
                0 <= i < r@.len() ==> #[trigger] self.links().contains_key((from.0, r@[i].0.0))
                    && self.links()[(from.0, r@[i].0.0)] == *r@[i].1,
            forall|to: u64|
                #[trigger] self.links().contains_key((from.0, to)) ==> exists|i: int|
                    0 <= i < r@.len() && r@[i].0.0 == to,
            forall|i: int, j: int| 0 <= i < j < r@.len() ==> r@[i].0.0 < r@[j].0.0,
    {
        let mut r: Vec<(EntityId, &V)> = Vec::new();
        proof {
            assert(obeys_cmp::<u64>());
            assert(obeys_cmp::<(u64, u64)>());
            assert(key_obeys_cmp_spec::<(u64, u64)>());
        }
        let iter = self.edges.iter();
        let ghost m = self.edges@;
        let ghost items = iter.remaining();
        let ghost keys = items.map_values(|p: (&(u64, u64), &V)| *p.0);
        proof {
            lemma_increasing_keys(keys);
        }
        let ghost mut pos: Seq<int> = Seq::empty();
        for kv in it: iter
            invariant
                it.seq() == items,
                m == self.edges@,
                keys == items.map_values(|p: (&(u64, u64), &V)| *p.0),
                keys.len() == items.len(),
                forall|i: int, j: int|
                    0 <= i < j < keys.len() && keys[i].0 == keys[j].0 ==> keys[i].1 < keys[j].1,
                forall|j: int|
                    #![trigger items[j]]
                    0 <= j < items.len() ==> m.contains_key(*items[j].0) && m[*items[j].0] == *items[j].1,
                forall|i: int|
                    0 <= i < r@.len() ==> #[trigger] m.contains_key((from.0, r@[i].0.0))
                        && m[(from.0, r@[i].0.0)] == *r@[i].1,
                pos.len() == r@.len(),
                forall|i: int|
                    #![trigger pos[i]]
                    0 <= i < pos.len() ==> 0 <= pos[i] < it.index() && keys[pos[i]] == (from.0, r@[i].0.0),
                forall|j: int|
                    0 <= j < it.index() && (#[trigger] keys[j]).0 == from.0 ==> exists|i: int|
                        0 <= i < r@.len() && r@[i].0.0 == keys[j].1,
                forall|i: int, j: int| 0 <= i < j < r@.len() ==> r@[i].0.0 < r@[j].0.0,
        {
            let (key, value) = kv;
            let ghost at = it.index();
            let ghost before = r@;
            assert(keys[at] == *key);
            if key.0 == from.0 {
                r.push((EntityId(key.1), value));
                proof {
                    assert forall|i: int, j: int| 0 <= i < j < r@.len() implies r@[i].0.0 < r@[j].0.0 by {
                        if j == r@.len() - 1 {
                            assert(keys[pos[i]].1 < keys[at].1);
                        }
                    }
                    pos = pos.push(at);
                }
            }
            proof {
                assert forall|j: int| 0 <= j < at + 1 && (#[trigger] keys[j]).0 == from.0 implies exists|i: int|
                    0 <= i < r@.len() && r@[i].0.0 == keys[j].1 by {
                    if j == at {
                        assert(r@[r@.len() - 1].0.0 == keys[j].1);
                    } else {
                        let i = choose|i: int| 0 <= i < before.len() && before[i].0.0 == keys[j].1;
                        assert(r@[i] == before[i]);
                    }
                }
            }
        }
        proof {
            assert forall|to: u64| #[trigger] m.contains_key((from.0, to)) implies exists|i: int|
                0 <= i < r@.len() && r@[i].0.0 == to by {
                let j = choose|j: int| 0 <= j < items.len() && *items[j].0 == (from.0, to);
                assert(keys[j] == (from.0, to));
            }
        }
        r
    }
}

impl<V> Default for LinkModel<V> {
    fn default() -> (m: Self)
        ensures
            m.links() == Map::<(u64, u64), V>::empty(),
    {
        LinkModel::new()
    }
}

/// In a sequence of keys in increasing order, keys with the same
/// transmitter come in increasing order of receiver.
proof fn lemma_increasing_keys(keys: Seq<(u64, u64)>)
    requires
        increasing_seq(keys),
    ensures
        forall|i: int, j: int|
            0 <= i < j < keys.len() && keys[i].0 == keys[j].0 ==> keys[i].1 < keys[j].1,
{
    assert(obeys_cmp::<(u64, u64)>());
    assert forall|i: int, j: int| 0 <= i < j < keys.len() && keys[i].0 == keys[j].0 implies keys[i].1
        < keys[j].1 by {
        assert(keys[i].cmp_spec(&keys[j]) is Less);
    }
}

} // verus!
