//! A bounded key-value cache whose entries expire after a time-to-live and
//! which evicts in insertion order once its capacity is reached.
//!
//! Time is a count of nanoseconds on the cache's own monotonic clock. Every
//! operation that depends on the current instant exists in two forms: one that
//! takes the instant as an argument and has an exact contract, and one that
//! reads the clock and hands the reading to the first.

use crate::entries::Entry;
use crate::model::displaced;
use crate::model::holds;
use crate::model::inserted;
use crate::model::position;
use crate::model::purged;
use crate::model::served;
use crate::model::status;
use crate::model::stored_value;
use crate::model::without;
use crate::model::Stored;
use crate::ttl::TtlStatus;
use std::hash::BuildHasher;
use vstd::prelude::*;

pub mod clock;
pub mod entries;
pub mod index;
pub mod laws;
pub mod model;
pub mod store;
pub mod ttl;

verus! {

/// Builders that can be told how much a cache may hold and how it hashes.
pub trait CacheConfiguration<S: BuildHasher>: Sized {
    /// The capacity currently configured.
    spec fn limit(&self) -> nat;

    /// Sets the greatest number of entries that the cache will hold.
    fn capacity(self, capacity: usize) -> (configured: Self)
        ensures
            configured.limit() == capacity,
    ;

    /// Sets the hasher that the cache's index is made with.
    fn hasher(self, hasher: S) -> (configured: Self)
        ensures
            configured.limit() == self.limit(),
    ;
}

/// What every kind of cache node offers: access to the value it wraps.
pub trait CacheNode<V> {
    /// The value inside the node.
    spec fn held(&self) -> V;

    /// A reference to the value inside the node.
    fn value(&self) -> (v: &V)
        ensures
            *v == self.held(),
    ;

    /// A mutable reference to the value inside the node.
    fn value_mut(&mut self) -> (v: &mut V)
        ensures
            *v == old(self).held(),
            final(self).held() == *final(v),
    ;

    /// Takes the value out of the node.
    fn into_value(self) -> (v: V)
        ensures
            v == self.held(),
    ;
}

/// A bounded cache from `u64` keys to values of type `V`.
///
/// The methods that depend on the present instant read the cache's clock
/// themselves. Their contracts say that the outcome is the one that the model
/// gives for some instant; the caches offer each of them a second time with
/// the instant as an argument, where the contract is exact.
pub trait Cache<V>: Sized {
    /// The cache is consistent.
    spec fn valid(&self) -> bool;

    /// The entries that are physically present, oldest first.
    spec fn entries(&self) -> Seq<Stored<V>>;

    /// The configured maximum number of entries.
    spec fn room(&self) -> nat;

    /// The instant at which an entry written at `now` by `insert` expires.
    spec fn expiry(&self, now: u128) -> u128;

    /// The configured maximum number of entries.
    fn capacity(&self) -> (capacity: usize)
        ensures
            capacity == self.room(),
    ;

    /// Removes every entry. Capacity and settings stay.
    fn clear(&mut self)
        requires
            old(self).valid(),
        ensures
            final(self).valid(),
            final(self).room() == old(self).room(),
            final(self).entries() == Seq::<Stored<V>>::empty(),
    ;

    /// Whether an entry is stored under `key`, be it expired or not.
    fn contains_key(&self, key: &u64) -> (found: bool)
        requires
            self.valid(),
        ensures
            found == holds(self.entries(), *key),
    ;

    /// Looks `key` up and returns a handle on its entry if the entry is valid.
    /// An entry found expired is removed, and no handle is given for it, nor
    /// for a key that is absent.
    fn entry(&mut self, key: u64) -> (handle: Option<Entry<'_, V>>)
        requires
            old(self).valid(),
        ensures
            exists|now: u128|
                match handle {
                    Some(entry) => #[trigger] status(old(self).entries(), key, now) == Some(TtlStatus::Valid)
                        && entry is Occupied && entry.wf() && entry.spec_key() == key && entry.cache()@ == old(self).entries(),
                    None => #[trigger] status(old(self).entries(), key, now) != Some(TtlStatus::Valid)
                        && final(self).valid() && final(self).room() == old(self).room() && final(self).entries() == purged(old(self).entries(), key, now),
                },
    ;

    /// Writes `val` under `key` as the newest entry, to expire one
    /// time-to-live from now, and returns the value that the write replaced.
    /// A cache that has reached its capacity first gives up its oldest entry,
    /// whatever the key.
    fn insert(&mut self, key: u64, val: V) -> (previous: Option<V>)
        requires
            old(self).valid(),
        ensures
            final(self).valid(),
            final(self).room() == old(self).room(),
            exists|now: u128|
                final(self).entries() == inserted(
                    old(self).entries(),
                    old(self).room(),
                    key,
                    val,
                    #[trigger] old(self).expiry(now),
                ),
            previous == displaced(old(self).entries(), old(self).room(), key),
            old(self).room() >= 1 && old(self).entries().len() <= old(self).room() ==> final(self).entries().len() <= final(self).room(),
    ;

    /// Whether the cache holds no entry, expired ones counted.
    fn is_empty(&self) -> (empty: bool)
        requires
            self.valid(),
        ensures
            empty == (self.entries().len() == 0),
    ;

    /// A reference to the value stored under the key if it is valid. An entry
    /// found expired is removed.
    fn get(&mut self, k: &u64) -> (found: Option<&V>)
        requires
            old(self).valid(),
        ensures
            final(self).valid(),
            final(self).room() == old(self).room(),
            exists|now: u128|
                final(self).entries() == #[trigger] purged(old(self).entries(), *k, now) && match found {
                    Some(v) => served(old(self).entries(), *k, now) == Some(*v),
                    None => served(old(self).entries(), *k, now).is_none(),
                },
    ;

    /// A mutable reference to the value stored under the key if it is valid.
    /// An entry found expired is removed.
    fn get_mut(&mut self, k: &u64) -> (found: Option<&mut V>)
        requires
            old(self).valid(),
        ensures
            final(self).valid(),
            final(self).room() == old(self).room(),
            match found {
                Some(v) => (exists|now: u128| #[trigger] served(old(self).entries(), *k, now) == Some(*v))
                    && final(self).entries() == old(self).entries().update(
                    position(old(self).entries(), *k),
                    Stored {
                        key: *k,
                        value: *final(v),
                        expiration: old(self).entries()[position(old(self).entries(), *k)].expiration,
                    },
                ),
                None => exists|now: u128| #[trigger]
                    served(old(self).entries(), *k, now).is_none() && final(self).entries() == purged(
                        old(self).entries(),
                        *k,
                        now,
                    ),
            },
    ;

    /// The number of entries, expired ones counted.
    fn len(&self) -> (n: usize)
        requires
            self.valid(),
        ensures
            n == self.entries().len(),
    ;

    /// Removes the entry stored under `key` and returns its value, whether it
    /// has expired or not.
    fn remove(&mut self, key: &u64) -> (removed: Option<V>)
        requires
            old(self).valid(),
        ensures
            final(self).valid(),
            final(self).room() == old(self).room(),
            final(self).entries() == without(old(self).entries(), *key),
            removed == stored_value(old(self).entries(), *key),
    ;
}

} // verus!
