//! Handles on a single slot of a cache.
//!
//! A handle is given out by a lookup that has already settled whether the
//! entry is valid. It borrows the cache, so nothing else can touch the cache
//! while the handle lives, and it looks at no clock again.

use crate::clock::deadline;
use crate::clock::duration_nanos;
use crate::model::holds;
use crate::model::lemma_position_unique;
use crate::model::placed;
use crate::model::position;
use crate::model::Stored;
use crate::ttl::cache::TtlCache;
use crate::ttl::node::TtlEntry;
use std::time::Duration;
use vstd::pervasive::unreached;
use vstd::prelude::*;

verus! {

/// A handle on an entry that is there and was valid when the handle was
/// given out.
pub struct OccupiedEntry<'a, V> {
    cache: &'a mut TtlCache<V>,
    key: u64,
}

/// A handle on the place that a key would take: the cache has no entry for
/// the key. No lookup of the cache gives one out: a key that is absent gets
/// no handle.
pub struct VacantEntry<'a, V> {
    cache: &'a mut TtlCache<V>,
    key: u64,
}

/// A handle on a single slot of a cache.
pub enum Entry<'a, V> {
    Occupied(OccupiedEntry<'a, V>),
    Vacant(VacantEntry<'a, V>),
}

impl<'a, V> Entry<'a, V> {
    /// The cache that the handle borrows.
    pub open spec fn cache(&self) -> &'a mut TtlCache<V> {
        match self {
            Entry::Occupied(e) => e.cache(),
            Entry::Vacant(e) => e.cache(),
        }
    }

    /// The key that the handle stands for.
    pub open spec fn spec_key(&self) -> u64 {
        match self {
            Entry::Occupied(e) => e.spec_key(),
            Entry::Vacant(e) => e.spec_key(),
        }
    }

    /// The handle tells the truth about its slot.
    pub open spec fn wf(&self) -> bool {
        match self {
            Entry::Occupied(e) => e.wf(),
            Entry::Vacant(e) => e.wf(),
        }
    }

    /// The key that the handle stands for.
    pub fn key(&self) -> (key: &u64)
        ensures
            *key == self.spec_key(),
    {
        match self {
            Entry::Occupied(e) => e.key(),
            Entry::Vacant(e) => e.key(),
        }
    }
}

impl<'a, V> OccupiedEntry<'a, V> {
    /// The cache that the handle borrows.
    pub closed spec fn cache(&self) -> &'a mut TtlCache<V> {
        self.cache
    }

    /// The key that the handle stands for.
    pub closed spec fn spec_key(&self) -> u64 {
        self.key
    }

    /// The cache is consistent and has an entry for the key.
    pub open spec fn wf(&self) -> bool {
        &&& self.cache().wf()
        &&& holds(self.cache()@, self.spec_key())
    }

    /// The place of the handle's entry in the cache.
    pub open spec fn place(&self) -> int {
        position(self.cache()@, self.spec_key())
    }

    /// A handle on the entry that `cache` has for `key`.
    pub(crate) fn open(cache: &'a mut TtlCache<V>, key: u64) -> (handle: Self)
        requires
            old(cache).wf(),
            holds(old(cache)@, key),
        ensures
            handle.wf(),
            handle.spec_key() == key,
            *handle.cache() == *old(cache),
            *final(cache) == *final(handle.cache()),
    {
        OccupiedEntry { cache, key }
    }

    /// The key that the handle stands for.
    pub fn key(&self) -> (key: &u64)
        ensures
            *key == self.spec_key(),
    {
        &self.key
    }

    /// The value of the entry, as it is: the handle looks at no clock.
    pub fn get(&self) -> (v: &V)
        requires
            self.wf(),
        ensures
            *v == self.cache()@[self.place()].value,
    {
        match self.cache.peek(self.key) {
            Some(v) => v,
            None => unreached(),
        }
    }

    /// The value of the entry, open to change.
    pub fn get_mut(&mut self) -> (v: &mut V)
        requires
            old(self).wf(),
        ensures
            *v == old(self).cache()@[old(self).place()].value,
            final(self).wf(),
            final(self).spec_key() == old(self).spec_key(),
            final(self).cache().configured_as(old(self).cache()),
            final(self).cache()@ == old(self).cache()@.update(
                old(self).place(),
                Stored {
                    key: old(self).spec_key(),
                    value: *final(v),
                    expiration: old(self).cache()@[old(self).place()].expiration,
                },
            ),
            *final(final(self).cache()) == *final(old(self).cache()),
    {
        match self.cache.peek_mut(self.key) {
            Some(v) => {
                proof {
                    let before = old(self).cache()@;
                    let after = before.update(
                        old(self).place(),
                        Stored {
                            key: old(self).spec_key(),
                            value: *final(v),
                            expiration: before[old(self).place()].expiration,
                        },
                    );
                    assert(after[old(self).place()].key == old(self).spec_key());
                }
                v
            },
            None => unreached(),
        }
    }

    /// Replaces the entry by `value`, written at the instant `now` to live
    /// for `duration`, and returns the value that was there. The entry
    /// becomes the newest of the cache.
    pub fn insert_at(self, value: V, duration: Duration, now: u128) -> (previous: V)
        requires
            self.wf(),
        ensures
            previous == old(self.cache())@[position(old(self.cache())@, self.spec_key())].value,
            final(self.cache()).wf(),
            final(self.cache()).configured_as(old(self.cache())),
            final(self.cache())@ == placed(
                old(self.cache())@,
                self.spec_key(),
                value,
                deadline(now, duration_nanos(duration)),
            ),
    {
        let entry = TtlEntry::new(value, duration);
        match self.cache.put(self.key, entry, now) {
            Some(previous) => previous,
            None => unreached(),
        }
    }

    /// Reads the cache's clock and replaces the entry as `insert_at` does.
    pub fn insert(self, value: V, duration: Duration) -> (previous: V)
        requires
            self.wf(),
        ensures
            previous == old(self.cache())@[position(old(self.cache())@, self.spec_key())].value,
            final(self.cache()).wf(),
            final(self.cache()).configured_as(old(self.cache())),
            exists|now: u128|
                final(self.cache())@ == placed(
                    old(self.cache())@,
                    self.spec_key(),
                    value,
                    #[trigger] deadline(now, duration_nanos(duration)),
                ),
    {
        let now: u128 = self.cache.now();
        let ghost at_now = deadline(now, duration_nanos(duration));
        self.insert_at(value, duration, now)
    }
}

impl<'a, V> VacantEntry<'a, V> {
    /// The cache that the handle borrows.
    pub closed spec fn cache(&self) -> &'a mut TtlCache<V> {
        self.cache
    }

    /// The key that the handle stands for.
    pub closed spec fn spec_key(&self) -> u64 {
        self.key
    }

    /// The cache is consistent and has no entry for the key.
    pub open spec fn wf(&self) -> bool {
        &&& self.cache().wf()
        &&& !holds(self.cache()@, self.spec_key())
    }

    /// The key that the handle stands for.
    pub fn key(&self) -> (key: &u64)
        ensures
            *key == self.spec_key(),
    {
        &self.key
    }

    /// Creates the entry with `value`, written at the instant `now` to live
    /// for `duration`, and hands out the value. The entry becomes the newest
    /// of the cache; the capacity is not looked at.
    pub fn insert_at(self, value: V, duration: Duration, now: u128) -> (v: &'a mut V)
        requires
            self.wf(),
        ensures
            *v == value,
            final(self.cache()).wf(),
            final(self.cache()).configured_as(old(self.cache())),
            final(self.cache())@ == old(self.cache())@.push(
                Stored {
                    key: self.spec_key(),
                    value: *final(v),
                    expiration: deadline(now, duration_nanos(duration)),
                },
            ),
    {
        let entry = TtlEntry::new(value, duration);
        let key: u64 = self.key;
        let cache = self.cache;
        let ghost before = cache@;
        let _ = cache.put(key, entry, now);
        let ghost between = cache@;
        proof {
            lemma_position_unique(between, key, before.len() as int);
        }
        match cache.peek_mut(key) {
            Some(v) => {
                proof {
                    let written = Stored { key, value: *final(v), expiration: deadline(now, duration_nanos(duration)) };
                    assert(between.update(before.len() as int, written) =~= before.push(written));
                }
                v
            },
            None => unreached(),
        }
    }

    /// Reads the cache's clock and creates the entry as `insert_at` does.
    pub fn insert(self, value: V, duration: Duration) -> (v: &'a mut V)
        requires
            self.wf(),
        ensures
            *v == value,
            final(self.cache()).wf(),
            final(self.cache()).configured_as(old(self.cache())),
            exists|now: u128|
                final(self.cache())@ == old(self.cache())@.push(
                    Stored {
                        key: self.spec_key(),
                        value: *final(v),
                        expiration: #[trigger] deadline(now, duration_nanos(duration)),
                    },
                ),
    {
        let now: u128 = self.cache.now();
        let ghost at_now = deadline(now, duration_nanos(duration));
        self.insert_at(value, duration, now)
    }
}

} // verus!
