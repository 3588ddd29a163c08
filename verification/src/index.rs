//! The insertion-ordered index of the store: a `LinkedHashMap` from keys to
//! slot numbers.
//!
//! Verus does not look inside the map. What it holds is given a name,
//! `index_entries`, and each method that the store calls has a wrapper whose
//! contract says over that name what the method does. These contracts are
//! believed, not proved.

use linked_hash_map::LinkedHashMap;
use std::hash::RandomState;
use vstd::prelude::*;

verus! {

/// `linked_hash_map::LinkedHashMap`, declared so that the store can hold one.
#[verifier::external_type_specification]
#[verifier::external_body]
#[verifier::reject_recursive_types(K)]
#[verifier::reject_recursive_types(V)]
#[verifier::reject_recursive_types(S)]
pub struct ExLinkedHashMap<K, V, S>(LinkedHashMap<K, V, S>);

/// The pairs that the map holds, in the order in which it walks them: the
/// pair that `pop_front` would take comes first.
pub uninterp spec fn index_entries(m: LinkedHashMap<u64, usize>) -> Seq<(u64, usize)>;

/// Some pair of `s` has the key `key`.
pub open spec fn has_key(s: Seq<(u64, usize)>, key: u64) -> bool {
    exists|j: int| 0 <= j < s.len() && (#[trigger] s[j]).0 == key
}

/// The place of `key` in `s`. Meaningful where `has_key(s, key)`.
pub open spec fn key_place(s: Seq<(u64, usize)>, key: u64) -> int {
    choose|j: int| 0 <= j < s.len() && (#[trigger] s[j]).0 == key
}

/// `RandomState::new`. Nothing is claimed of the hasher's keys.
pub assume_specification[ RandomState::new ]() -> (hasher: RandomState)
;

/// Calls `LinkedHashMap::with_hasher`. Claims that the new map is empty.
#[verifier::external_body]
pub(crate) fn index_with_hasher(hasher: RandomState) -> (m: LinkedHashMap<u64, usize>)
    ensures
        index_entries(m) == Seq::<(u64, usize)>::empty(),
{
    LinkedHashMap::with_hasher(hasher)
}

/// Calls `LinkedHashMap::len`. Claims that it counts the pairs.
#[verifier::external_body]
pub(crate) fn index_len(m: &LinkedHashMap<u64, usize>) -> (n: usize)
    ensures
        n == index_entries(*m).len(),
{
    m.len()
}

/// Calls `LinkedHashMap::is_empty`. Claims that it tells whether there is no
/// pair.
#[verifier::external_body]
pub(crate) fn index_is_empty(m: &LinkedHashMap<u64, usize>) -> (empty: bool)
    ensures
        empty == (index_entries(*m).len() == 0),
{
    m.is_empty()
}

/// Calls `LinkedHashMap::contains_key`. Claims that it tells whether some
/// pair has the key.
#[verifier::external_body]
pub(crate) fn index_contains_key(m: &LinkedHashMap<u64, usize>, key: u64) -> (found: bool)
    ensures
        found == has_key(index_entries(*m), key),
{
    m.contains_key(&key)
}

/// Calls `LinkedHashMap::get`. Claims that it finds the slot number paired
/// with the key, or nothing where no pair has the key.
#[verifier::external_body]
pub(crate) fn index_get(m: &LinkedHashMap<u64, usize>, key: u64) -> (slot: Option<&usize>)
    ensures
        match slot {
            Some(slot) => has_key(index_entries(*m), key) && *slot == index_entries(*m)[key_place(
                index_entries(*m),
                key,
            )].1,
            None => !has_key(index_entries(*m), key),
        },
{
    m.get(&key)
}

/// Calls `LinkedHashMap::get_mut`. Claims what is claimed of `get`, and that
/// a write through the reference changes that one slot number and nothing
/// else, the order included.
#[verifier::external_body]
pub(crate) fn index_get_mut(m: &mut LinkedHashMap<u64, usize>, key: u64) -> (slot: Option<&mut usize>)
    ensures
        match slot {
            Some(slot) => has_key(index_entries(*old(m)), key) && *slot == index_entries(*old(m))[key_place(
                index_entries(*old(m)),
                key,
            )].1 && index_entries(*final(m)) == index_entries(*old(m)).update(
                key_place(index_entries(*old(m)), key),
                (key, *final(slot)),
            ),
            None => !has_key(index_entries(*old(m)), key) && index_entries(*final(m)) == index_entries(
                *old(m),
            ),
        },
{
    m.get_mut(&key)
}

/// Calls `LinkedHashMap::insert`. Claims that a pair with the same key
/// leaves its place and its slot number is returned, and that the new pair
/// comes last either way.
#[verifier::external_body]
pub(crate) fn index_insert(m: &mut LinkedHashMap<u64, usize>, key: u64, slot: usize) -> (previous: Option<
    usize,
>)
    ensures
        has_key(index_entries(*old(m)), key) ==> previous == Some(
            index_entries(*old(m))[key_place(index_entries(*old(m)), key)].1,
        ) && index_entries(*final(m)) == index_entries(*old(m)).remove(
            key_place(index_entries(*old(m)), key),
        ).push((key, slot)),
        !has_key(index_entries(*old(m)), key) ==> previous.is_none() && index_entries(*final(m))
            == index_entries(*old(m)).push((key, slot)),
{
    m.insert(key, slot)
}

/// Calls `LinkedHashMap::remove`. Claims that the pair with the key leaves
/// and its slot number is returned, the others keeping their order; and that
/// nothing changes where no pair has the key.
#[verifier::external_body]
pub(crate) fn index_remove(m: &mut LinkedHashMap<u64, usize>, key: u64) -> (removed: Option<usize>)
    ensures
        has_key(index_entries(*old(m)), key) ==> removed == Some(
            index_entries(*old(m))[key_place(index_entries(*old(m)), key)].1,
        ) && index_entries(*final(m)) == index_entries(*old(m)).remove(
            key_place(index_entries(*old(m)), key),
        ),
        !has_key(index_entries(*old(m)), key) ==> removed.is_none() && index_entries(*final(m))
            == index_entries(*old(m)),
{
    m.remove(&key)
}

/// Calls `LinkedHashMap::pop_front`. Claims that the first pair leaves and is
/// returned, and that an empty map stays empty and gives nothing.
#[verifier::external_body]
pub(crate) fn index_pop_front(m: &mut LinkedHashMap<u64, usize>) -> (front: Option<(u64, usize)>)
    ensures
        index_entries(*old(m)).len() > 0 ==> front == Some(index_entries(*old(m))[0]) && index_entries(
            *final(m),
        ) == index_entries(*old(m)).drop_first(),
        index_entries(*old(m)).len() == 0 ==> front.is_none() && index_entries(*final(m))
            == index_entries(*old(m)),
{
    m.pop_front()
}

/// Calls `LinkedHashMap::clear`. Claims that no pair is left.
#[verifier::external_body]
pub(crate) fn index_clear(m: &mut LinkedHashMap<u64, usize>)
    ensures
        index_entries(*final(m)) == Seq::<(u64, usize)>::empty(),
{
    m.clear()
}

} // verus!
