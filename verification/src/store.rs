//! The ordered store: a mapping from unique keys to nodes that remembers the
//! order of insertion and can give up its oldest entry.
//!
//! The order and the lookup belong to a `LinkedHashMap` from keys to slot
//! numbers; the nodes themselves lie in a dense vector of slots. Removing a
//! slot moves the last one into its place, and the index is told so.

use crate::index::has_key;
use crate::index::index_clear;
use crate::index::index_contains_key;
use crate::index::index_entries;
use crate::index::index_get;
use crate::index::index_get_mut;
use crate::index::index_insert;
use crate::index::index_is_empty;
use crate::index::index_len;
use crate::index::index_pop_front;
use crate::index::index_remove;
use crate::index::index_with_hasher;
use crate::index::key_place;
use crate::model::distinct_keys;
use crate::model::holds;
use crate::model::lemma_position_unique;
use crate::model::position;
use crate::model::without;
use crate::model::Stored;
use crate::ttl::node::TtlNode;
use crate::CacheNode;
use linked_hash_map::LinkedHashMap;
use std::hash::RandomState;
use vstd::pervasive::unreached;
use vstd::prelude::*;

verus! {

/// A node in its slot, with the key that it is stored under.
struct Slot<V> {
    key: u64,
    node: TtlNode<V>,
}

/// Entries under unique keys, in the order in which they were last written.
pub struct OrderedStore<V> {
    index: LinkedHashMap<u64, usize>,
    slots: Vec<Slot<V>>,
}

/// A node under its key, as the contracts see it.
pub open spec fn stored_as<V>(key: u64, node: TtlNode<V>) -> Stored<V> {
    Stored { key, value: node.held(), expiration: node.expiration() }
}

/// No key occurs twice in the index.
spec fn unique_keys(ie: Seq<(u64, usize)>) -> bool {
    forall|i: int, j: int|
        0 <= i < ie.len() && 0 <= j < ie.len() && i != j ==> (#[trigger] ie[i]).0 != (#[trigger] ie[j]).0
}

/// The index pairs `key` with the slot `t`.
spec fn points_to(ie: Seq<(u64, usize)>, key: u64, t: int) -> bool {
    exists|q: int| 0 <= q < ie.len() && #[trigger] ie[q] == (key, t as usize)
}

/// Every pair of the index names a slot that holds its key, except that no
/// pair names the slot `hole`.
spec fn names_slots<V>(ie: Seq<(u64, usize)>, slots: Seq<Slot<V>>, hole: int) -> bool {
    forall|p: int|
        0 <= p < ie.len() ==> (#[trigger] ie[p]).1 < slots.len() && ie[p].1 != hole && slots[ie[p].1 as int].key
            == ie[p].0
}

/// Every slot but `hole` is named by the pair of its key.
spec fn slots_named<V>(ie: Seq<(u64, usize)>, slots: Seq<Slot<V>>, hole: int) -> bool {
    forall|t: int| 0 <= t < slots.len() && t != hole ==> points_to(ie, (#[trigger] slots[t]).key, t)
}

/// Index and slots describe one another.
spec fn linked<V>(ie: Seq<(u64, usize)>, slots: Seq<Slot<V>>) -> bool {
    &&& ie.len() == slots.len()
    &&& unique_keys(ie)
    &&& names_slots(ie, slots, -1)
    &&& slots_named(ie, slots, -1)
}

/// Index and slots describe one another but for the slot `hole`, whose pair
/// has left the index already.
spec fn hollow<V>(ie: Seq<(u64, usize)>, slots: Seq<Slot<V>>, hole: int) -> bool {
    &&& 0 <= hole < slots.len()
    &&& ie.len() + 1 == slots.len()
    &&& unique_keys(ie)
    &&& names_slots(ie, slots, hole)
    &&& slots_named(ie, slots, hole)
}

/// The entries in the order of the index.
spec fn view_of<V>(ie: Seq<(u64, usize)>, slots: Seq<Slot<V>>) -> Seq<Stored<V>> {
    Seq::new(ie.len(), |j: int| stored_as(ie[j].0, slots[ie[j].1 as int].node))
}

proof fn lemma_place_unique(ie: Seq<(u64, usize)>, key: u64, j: int)
    requires
        unique_keys(ie),
        0 <= j < ie.len(),
        ie[j].0 == key,
    ensures
        has_key(ie, key),
        key_place(ie, key) == j,
{
}

/// What the index says of a key is what the view says of it.
proof fn lemma_view_keys<V>(ie: Seq<(u64, usize)>, slots: Seq<Slot<V>>, key: u64)
    requires
        unique_keys(ie),
    ensures
        distinct_keys(view_of(ie, slots)),
        holds(view_of(ie, slots), key) == has_key(ie, key),
        has_key(ie, key) ==> position(view_of(ie, slots), key) == key_place(ie, key),
{
    let s = view_of(ie, slots);
    assert forall|i: int, j: int| 0 <= i < s.len() && 0 <= j < s.len() && i != j implies (#[trigger] s[i]).key
        != (#[trigger] s[j]).key by {
        assert(s[i].key == ie[i].0);
        assert(s[j].key == ie[j].0);
    }
    if has_key(ie, key) {
        let j = key_place(ie, key);
        assert(s[j].key == key);
        lemma_position_unique(s, key, j);
    }
    if holds(s, key) {
        let j = position(s, key);
        assert(ie[j].0 == key);
    }
}

impl<V> View for OrderedStore<V> {
    type V = Seq<Stored<V>>;

    /// The entries, oldest first.
    closed spec fn view(&self) -> Seq<Stored<V>> {
        view_of(index_entries(self.index), self.slots@)
    }
}

impl<V> OrderedStore<V> {
    /// Index and slots agree.
    pub closed spec fn inv(&self) -> bool {
        linked(index_entries(self.index), self.slots@)
    }

    /// The store is consistent, and so no key occurs twice in it.
    pub open spec fn wf(&self) -> bool {
        &&& self.inv()
        &&& distinct_keys(self@)
        &&& self@.len() <= usize::MAX
    }

    proof fn lemma_inv_wf(&self)
        requires
            self.inv(),
        ensures
            self.wf(),
    {
        lemma_view_keys(index_entries(self.index), self.slots@, 0);
        assert(self.slots@.len() == self.slots.len());
    }

    /// An empty store whose index hashes with `hasher`.
    pub fn new(hasher: RandomState) -> (store: Self)
        ensures
            store.wf(),
            store@ == Seq::<Stored<V>>::empty(),
    {
        let store = OrderedStore { index: index_with_hasher(hasher), slots: Vec::new() };
        proof {
            store.lemma_inv_wf();
        }
        store
    }

    /// The number of entries.
    pub fn len(&self) -> (n: usize)
        requires
            self.wf(),
        ensures
            n == self@.len(),
    {
        index_len(&self.index)
    }

    /// Whether the store holds no entry.
    pub fn is_empty(&self) -> (empty: bool)
        requires
            self.wf(),
        ensures
            empty == (self@.len() == 0),
    {
        index_is_empty(&self.index)
    }

    /// Whether an entry is stored under `key`.
    pub fn contains_key(&self, key: u64) -> (found: bool)
        requires
            self.wf(),
        ensures
            found == holds(self@, key),
    {
        proof {
            lemma_view_keys(index_entries(self.index), self.slots@, key);
        }
        index_contains_key(&self.index, key)
    }

    /// The node stored under `key`.
    pub fn get(&self, key: u64) -> (found: Option<&TtlNode<V>>)
        requires
            self.wf(),
        ensures
            match found {
                Some(node) => holds(self@, key) && self@[position(self@, key)] == stored_as(key, *node),
                None => !holds(self@, key),
            },
    {
        proof {
            lemma_view_keys(index_entries(self.index), self.slots@, key);
        }
        match index_get(&self.index, key) {
            Some(at) => {
                let at: usize = *at;
                Some(&self.slots[at].node)
            },
            None => None,
        }
    }

    /// The node stored under `key`, open to change. The entry keeps its place.
    pub fn get_mut(&mut self, key: u64) -> (found: Option<&mut TtlNode<V>>)
        requires
            old(self).wf(),
        ensures
            final(self).wf(),
            match found {
                Some(node) => holds(old(self)@, key) && old(self)@[position(old(self)@, key)] == stored_as(
                    key,
                    *node,
                ) && final(self)@ == old(self)@.update(position(old(self)@, key), stored_as(key, *final(node))),
                None => !holds(old(self)@, key) && final(self)@ == old(self)@,
            },
    {
        let ghost ie = index_entries(self.index);
        let ghost slots = self.slots@;
        proof {
            lemma_view_keys(ie, slots, key);
        }
        match index_get(&self.index, key) {
            Some(at) => {
                let at: usize = *at;
                let node = &mut self.slots[at].node;
                proof {
                    let j = key_place(ie, key);
                    let after = slots.update(at as int, Slot { key: slots[at as int].key, node: *final(node) });
                    assert(linked(ie, after)) by {
                        assert forall|t: int| 0 <= t < after.len() implies points_to(
                            ie,
                            (#[trigger] after[t]).key,
                            t,
                        ) by {
                            assert(points_to(ie, slots[t].key, t));
                        }
                    }
                    assert(view_of(ie, after) =~= view_of(ie, slots).update(j, stored_as(key, *final(node))))
                        by {
                        assert forall|p: int| 0 <= p < ie.len() && p != j implies ie[p].1 != at by {
                            if ie[p].1 == at {
                                assert(ie[p].0 == ie[j].0);
                            }
                        }
                    }
                    lemma_view_keys(ie, after, key);
                }
                Some(node)
            },
            None => None,
        }
    }

    /// Stores `node` under `key` as the newest entry and returns the node that
    /// was stored under that key before.
    pub fn insert(&mut self, key: u64, node: TtlNode<V>) -> (previous: Option<TtlNode<V>>)
        requires
            old(self).wf(),
        ensures
            final(self).wf(),
            final(self)@ == without(old(self)@, key).push(stored_as(key, node)),
            match previous {
                Some(before) => holds(old(self)@, key) && old(self)@[position(old(self)@, key)] == stored_as(
                    key,
                    before,
                ),
                None => !holds(old(self)@, key),
            },
    {
        let ghost ie = index_entries(self.index);
        let ghost slots = self.slots@;
        proof {
            lemma_view_keys(ie, slots, key);
        }
        let mut node = node;
        let found = index_get(&self.index, key);
        match found {
            Some(at) => {
                let at: usize = *at;
                std::mem::swap(&mut self.slots[at].node, &mut node);
                let _ = index_insert(&mut self.index, key, at);
                proof {
                    let j = key_place(ie, key);
                    let ie2 = index_entries(self.index);
                    let slots2 = self.slots@;
                    assert(ie2 == ie.remove(j).push((key, at)));
                    assert forall|p: int| 0 <= p < ie.len() && p != j implies ie[p].1 != at by {
                        if ie[p].1 == at {
                            assert(ie[p].0 == ie[j].0);
                        }
                    }
                    assert(unique_keys(ie2));
                    assert(names_slots(ie2, slots2, -1));
                    assert forall|t: int| 0 <= t < slots2.len() implies points_to(
                        ie2,
                        (#[trigger] slots2[t]).key,
                        t,
                    ) by {
                        assert(points_to(ie, slots[t].key, t));
                        let q = choose|q: int| 0 <= q < ie.len() && #[trigger] ie[q] == (slots[t].key, t as usize);
                        if q < j {
                            assert(ie2[q] == ie[q]);
                        } else if q == j {
                            assert(ie2[ie2.len() - 1] == (key, at));
                        } else {
                            assert(ie2[q - 1] == ie[q]);
                        }
                    }
                    assert(view_of(ie2, slots2) =~= view_of(ie, slots).remove(j).push(stored_as(key, slots2[at as int].node)));
                    lemma_view_keys(ie2, slots2, key);
                }
                Some(node)
            },
            None => {
                let at: usize = self.slots.len();
                self.slots.push(Slot { key, node });
                let _ = index_insert(&mut self.index, key, at);
                proof {
                    let ie2 = index_entries(self.index);
                    let slots2 = self.slots@;
                    assert(ie2 == ie.push((key, at)));
                    assert(slots2.len() == self.slots.len());
                    assert(unique_keys(ie2));
                    assert(names_slots(ie2, slots2, -1));
                    assert forall|t: int| 0 <= t < slots2.len() implies points_to(
                        ie2,
                        (#[trigger] slots2[t]).key,
                        t,
                    ) by {
                        if t < slots.len() {
                            assert(points_to(ie, slots[t].key, t));
                            let q = choose|q: int|
                                0 <= q < ie.len() && #[trigger] ie[q] == (slots[t].key, t as usize);
                            assert(ie2[q] == ie[q]);
                        } else {
                            assert(ie2[ie2.len() - 1] == (key, at));
                        }
                    }
                    assert(view_of(ie2, slots2) =~= view_of(ie, slots).push(stored_as(key, slots2[at as int].node)));
                    lemma_view_keys(ie2, slots2, key);
                }
                None
            },
        }
    }

    /// Takes the slot `at` out of the vector, once its pair has left the
    /// index. The last slot moves into the gap, and the index learns its new
    /// number, so that no entry but the one taken changes.
    fn take_slot(&mut self, at: usize) -> (slot: Slot<V>)
        requires
            hollow(index_entries(old(self).index), old(self).slots@, at as int),
        ensures
            final(self).inv(),
            final(self)@ == view_of(index_entries(old(self).index), old(self).slots@),
            slot == old(self).slots@[at as int],
    {
        let ghost ie = index_entries(self.index);
        let ghost slots = self.slots@;
        let last: usize = self.slots.len() - 1;
        let slot = self.slots.swap_remove(at);
        if at != last {
            let moved: u64 = self.slots[at].key;
            proof {
                assert(points_to(ie, slots[last as int].key, last as int));
                let q = choose|q: int| 0 <= q < ie.len() && #[trigger] ie[q] == (moved, last);
                lemma_place_unique(ie, moved, q);
            }
            match index_get_mut(&mut self.index, moved) {
                Some(number) => {
                    *number = at;
                },
                None => {
                    unreached::<()>();
                },
            }
            proof {
                let q = key_place(ie, moved);
                let ie2 = index_entries(self.index);
                let slots2 = self.slots@;
                assert(ie2 == ie.update(q, (moved, at)));
                assert forall|p: int| 0 <= p < ie.len() && p != q implies ie[p].1 != last by {
                    if ie[p].1 == last {
                        assert(ie[p].0 == ie[q].0);
                    }
                }
                assert(unique_keys(ie2));
                assert(names_slots(ie2, slots2, -1));
                assert forall|t: int| 0 <= t < slots2.len() implies points_to(
                    ie2,
                    (#[trigger] slots2[t]).key,
                    t,
                ) by {
                    if t == at {
                        assert(ie2[q] == (moved, at));
                    } else {
                        assert(points_to(ie, slots[t].key, t));
                        let r = choose|r: int| 0 <= r < ie.len() && #[trigger] ie[r] == (slots[t].key, t as usize);
                        assert(ie2[r] == ie[r]);
                    }
                }
                assert(view_of(ie2, slots2) =~= view_of(ie, slots));
            }
        } else {
            proof {
                let slots2 = self.slots@;
                assert(names_slots(ie, slots2, -1));
                assert forall|t: int| 0 <= t < slots2.len() implies points_to(
                    ie,
                    (#[trigger] slots2[t]).key,
                    t,
                ) by {
                    assert(points_to(ie, slots[t].key, t));
                }
                assert(view_of(ie, slots2) =~= view_of(ie, slots));
            }
        }
        slot
    }

    /// Removes the entry stored under `key` and returns its node. The other
    /// entries keep their order.
    pub fn remove(&mut self, key: u64) -> (removed: Option<TtlNode<V>>)
        requires
            old(self).wf(),
        ensures
            final(self).wf(),
            final(self)@ == without(old(self)@, key),
            match removed {
                Some(node) => holds(old(self)@, key) && old(self)@[position(old(self)@, key)] == stored_as(
                    key,
                    node,
                ),
                None => !holds(old(self)@, key),
            },
    {
        let ghost ie = index_entries(self.index);
        let ghost slots = self.slots@;
        proof {
            lemma_view_keys(ie, slots, key);
        }
        match index_remove(&mut self.index, key) {
            Some(at) => {
                proof {
                    let j = key_place(ie, key);
                    let ie2 = index_entries(self.index);
                    assert(ie2 == ie.remove(j));
                    assert forall|p: int| 0 <= p < ie.len() && p != j implies ie[p].1 != at by {
                        if ie[p].1 == at {
                            assert(ie[p].0 == ie[j].0);
                        }
                    }
                    assert(unique_keys(ie2));
                    assert(names_slots(ie2, slots, at as int));
                    assert forall|t: int| 0 <= t < slots.len() && t != at implies points_to(
                        ie2,
                        (#[trigger] slots[t]).key,
                        t,
                    ) by {
                        assert(points_to(ie, slots[t].key, t));
                        let q = choose|q: int| 0 <= q < ie.len() && #[trigger] ie[q] == (slots[t].key, t as usize);
                        if q < j {
                            assert(ie2[q] == ie[q]);
                        } else {
                            assert(ie2[q - 1] == ie[q]);
                        }
                    }
                    assert(view_of(ie2, slots) =~= view_of(ie, slots).remove(j));
                }
                let slot = self.take_slot(at);
                proof {
                    self.lemma_inv_wf();
                }
                Some(slot.node)
            },
            None => None,
        }
    }

    /// Removes the oldest entry and returns its key and node.
    pub fn pop_front(&mut self) -> (front: Option<(u64, TtlNode<V>)>)
        requires
            old(self).wf(),
        ensures
            final(self).wf(),
            match front {
                Some((key, node)) => old(self)@.len() > 0 && old(self)@[0] == stored_as(key, node) && final(self)@
                    == old(self)@.drop_first(),
                None => old(self)@.len() == 0 && final(self)@ == old(self)@,
            },
    {
        let ghost ie = index_entries(self.index);
        let ghost slots = self.slots@;
        match index_pop_front(&mut self.index) {
            Some((key, at)) => {
                proof {
                    let ie2 = index_entries(self.index);
                    assert(ie2 == ie.drop_first());
                    assert forall|p: int| 0 < p < ie.len() implies ie[p].1 != at by {
                        if ie[p].1 == at {
                            assert(ie[p].0 == ie[0].0);
                        }
                    }
                    assert(unique_keys(ie2));
                    assert(names_slots(ie2, slots, at as int));
                    assert forall|t: int| 0 <= t < slots.len() && t != at implies points_to(
                        ie2,
                        (#[trigger] slots[t]).key,
                        t,
                    ) by {
                        assert(points_to(ie, slots[t].key, t));
                        let q = choose|q: int| 0 <= q < ie.len() && #[trigger] ie[q] == (slots[t].key, t as usize);
                        assert(ie2[q - 1] == ie[q]);
                    }
                    assert(view_of(ie2, slots) =~= view_of(ie, slots).drop_first());
                }
                let slot = self.take_slot(at);
                proof {
                    self.lemma_inv_wf();
                }
                Some((key, slot.node))
            },
            None => None,
        }
    }

    /// Removes every entry.
    pub fn clear(&mut self)
        requires
            old(self).wf(),
        ensures
            final(self).wf(),
            final(self)@ == Seq::<Stored<V>>::empty(),
    {
        index_clear(&mut self.index);
        self.slots.clear();
        proof {
            self.lemma_inv_wf();
        }
    }
}

} // verus!
