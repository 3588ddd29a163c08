//! The mathematical model of the cache: a sequence of stored entries, oldest
//! first, and the functions that say what each operation does to it.

use crate::ttl::TtlStatus;
use vstd::prelude::*;

verus! {

/// One entry as the contracts see it.
pub struct Stored<V> {
    pub key: u64,
    pub value: V,
    pub expiration: u128,
}

/// Some entry of `s` has the key `key`.
pub open spec fn holds<V>(s: Seq<Stored<V>>, key: u64) -> bool {
    exists|j: int| 0 <= j < s.len() && (#[trigger] s[j]).key == key
}

/// The place of `key` in `s`, counted from the oldest entry. Meaningful
/// where `holds(s, key)`.
pub open spec fn position<V>(s: Seq<Stored<V>>, key: u64) -> int {
    choose|j: int| 0 <= j < s.len() && (#[trigger] s[j]).key == key
}

/// No key occurs twice in `s`.
pub open spec fn distinct_keys<V>(s: Seq<Stored<V>>) -> bool {
    forall|i: int, j: int|
        0 <= i < s.len() && 0 <= j < s.len() && i != j ==> (#[trigger] s[i]).key != (#[trigger] s[j]).key
}

/// The status of an entry that expires at `expiration` when looked at at `now`:
/// valid up to and including the instant of expiration.
pub open spec fn status_at(expiration: u128, now: u128) -> TtlStatus {
    if now > expiration {
        TtlStatus::Expired
    } else {
        TtlStatus::Valid
    }
}

/// The status of `key` at `now`: `None` where the key is absent.
pub open spec fn status<V>(s: Seq<Stored<V>>, key: u64, now: u128) -> Option<TtlStatus> {
    if holds(s, key) {
        Some(status_at(s[position(s, key)].expiration, now))
    } else {
        None
    }
}

/// `s` without the entry for `key`, if it has one.
pub open spec fn without<V>(s: Seq<Stored<V>>, key: u64) -> Seq<Stored<V>> {
    if holds(s, key) {
        s.remove(position(s, key))
    } else {
        s
    }
}

/// The value stored under `key`, whatever its expiration.
pub open spec fn stored_value<V>(s: Seq<Stored<V>>, key: u64) -> Option<V> {
    if holds(s, key) {
        Some(s[position(s, key)].value)
    } else {
        None
    }
}

/// `s` after making room for one insert under the limit `capacity`: a store
/// that has reached the limit loses its oldest entry, whatever its key.
pub open spec fn evicted<V>(s: Seq<Stored<V>>, capacity: nat) -> Seq<Stored<V>> {
    if s.len() >= capacity && s.len() > 0 {
        s.drop_first()
    } else {
        s
    }
}

/// `s` after writing `value` under `key`: an entry that was there leaves its
/// place, and the new entry becomes the newest.
pub open spec fn placed<V>(s: Seq<Stored<V>>, key: u64, value: V, expiration: u128) -> Seq<Stored<V>> {
    without(s, key).push(Stored { key, value, expiration })
}

/// The store after an insert: eviction first, the write second.
pub open spec fn inserted<V>(s: Seq<Stored<V>>, capacity: nat, key: u64, value: V, expiration: u128) -> Seq<
    Stored<V>,
> {
    placed(evicted(s, capacity), key, value, expiration)
}

/// What an insert returns: the value that the write replaced, which is the
/// one stored under `key` once eviction has taken place.
pub open spec fn displaced<V>(s: Seq<Stored<V>>, capacity: nat, key: u64) -> Option<V> {
    stored_value(evicted(s, capacity), key)
}

/// What a read of `key` at `now` returns: the value, if the entry is valid.
pub open spec fn served<V>(s: Seq<Stored<V>>, key: u64, now: u128) -> Option<V> {
    if status(s, key, now) == Some(TtlStatus::Valid) {
        Some(s[position(s, key)].value)
    } else {
        None
    }
}

/// The store after a read of `key` at `now`: an expired entry is gone.
pub open spec fn purged<V>(s: Seq<Stored<V>>, key: u64, now: u128) -> Seq<Stored<V>> {
    if status(s, key, now) == Some(TtlStatus::Expired) {
        s.remove(position(s, key))
    } else {
        s
    }
}

/// Where no key occurs twice, the place of a key is the one place that has it.
pub proof fn lemma_position_unique<V>(s: Seq<Stored<V>>, key: u64, j: int)
    requires
        distinct_keys(s),
        0 <= j < s.len(),
        s[j].key == key,
    ensures
        holds(s, key),
        position(s, key) == j,
{
}

} // verus!
