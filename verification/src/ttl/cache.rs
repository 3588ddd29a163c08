use crate::clock::deadline;
use crate::clock::duration_nanos;
use crate::clock::Clock;
use crate::entries::Entry;
use crate::entries::OccupiedEntry;
use crate::model::displaced;
use crate::model::distinct_keys;
use crate::model::holds;
use crate::model::inserted;
use crate::model::placed;
use crate::model::position;
use crate::model::purged;
use crate::model::served;
use crate::model::status;
use crate::model::stored_value;
use crate::model::Stored;
use crate::store::OrderedStore;
use crate::ttl::node::TtlEntry;
use crate::ttl::node::TtlNode;
use crate::ttl::settings::TtlRevalidationAction;
use crate::ttl::settings::TtlSettings;
use crate::ttl::settings::DEFAULT_TTL;
use crate::ttl::TtlConfiguration;
use crate::ttl::TtlStatus;
use crate::Cache;
use crate::CacheConfiguration;
use crate::CacheNode;
use std::hash::RandomState;
use std::time::Duration;
use vstd::prelude::*;

verus! {

/// The capacity of a cache that was given none.
pub const DEFAULT_CAPACITY: usize = 1024;

/// Collects capacity, time-to-live, action on expiry and hasher, and builds a
/// cache from them.
pub struct TtlCacheBuilder {
    action: TtlRevalidationAction,
    capacity: usize,
    duration: Duration,
    hasher: RandomState,
}

/// A cache from `u64` keys to values of type `V` that holds at most a
/// configured number of entries, evicts the oldest insert first, and drops an
/// entry whose time-to-live has passed when the entry is next looked up.
pub struct TtlCache<V> {
    store: OrderedStore<V>,
    settings: TtlSettings,
    capacity: usize,
    clock: Clock,
}

impl TtlCacheBuilder {
    /// The configured action on expiry.
    pub closed spec fn spec_action(&self) -> TtlRevalidationAction {
        self.action
    }

    /// The configured maximum number of entries.
    pub closed spec fn spec_capacity(&self) -> nat {
        self.capacity as nat
    }

    /// The configured time-to-live.
    pub closed spec fn spec_duration(&self) -> Duration {
        self.duration
    }

    /// The hasher that the cache's index will be made with.
    pub closed spec fn spec_hasher(&self) -> RandomState {
        self.hasher
    }

    /// A builder with the defaults: room for `DEFAULT_CAPACITY` entries that
    /// live `DEFAULT_TTL` seconds and are dropped when they expire.
    pub fn new() -> (builder: Self)
        ensures
            builder.spec_capacity() == DEFAULT_CAPACITY,
            duration_nanos(builder.spec_duration()) == DEFAULT_TTL * 1_000_000_000,
            builder.spec_action() == TtlRevalidationAction::Expire,
    {
        Self {
            action: TtlRevalidationAction::default(),
            capacity: DEFAULT_CAPACITY,
            duration: Duration::from_secs(DEFAULT_TTL),
            hasher: RandomState::new(),
        }
    }

    /// An empty cache with the configured capacity and policy, whose clock
    /// starts now.
    pub fn build<V>(self) -> (cache: TtlCache<V>)
        ensures
            cache.wf(),
            cache@ == Seq::<Stored<V>>::empty(),
            cache.limit() == self.spec_capacity(),
            cache.ttl() == duration_nanos(self.spec_duration()),
            cache.policy() == self.spec_action(),
    {
        TtlCache {
            store: OrderedStore::new(self.hasher),
            settings: TtlSettings::new(self.action, self.duration),
            capacity: self.capacity,
            clock: Clock::start(),
        }
    }

    /// Sets what becomes of an expired entry.
    pub fn action(self, action: TtlRevalidationAction) -> (configured: Self)
        ensures
            configured.spec_action() == action,
            configured.spec_capacity() == self.spec_capacity(),
            configured.spec_duration() == self.spec_duration(),
            configured.spec_hasher() == self.spec_hasher(),
    {
        let mut configured = self;
        configured.action = action;
        configured
    }

    /// Takes action and time-to-live from `settings`.
    pub fn settings(self, settings: TtlSettings) -> (configured: Self)
        ensures
            configured.spec_action() == settings.spec_action(),
            configured.spec_duration() == settings.spec_duration(),
            configured.spec_capacity() == self.spec_capacity(),
            configured.spec_hasher() == self.spec_hasher(),
    {
        let (action, duration) = settings.split();
        let mut configured = self;
        configured.action = action;
        configured.duration = duration;
        configured
    }
}

impl CacheConfiguration<RandomState> for TtlCacheBuilder {
    open spec fn limit(&self) -> nat {
        self.spec_capacity()
    }

    fn capacity(self, capacity: usize) -> (configured: Self)
        ensures
            configured.spec_action() == self.spec_action(),
            configured.spec_duration() == self.spec_duration(),
            configured.spec_hasher() == self.spec_hasher(),
    {
        let mut configured = self;
        configured.capacity = capacity;
        configured
    }

    fn hasher(self, hasher: RandomState) -> (configured: Self)
        ensures
            configured.spec_hasher() == hasher,
            configured.spec_action() == self.spec_action(),
            configured.spec_duration() == self.spec_duration(),
    {
        let mut configured = self;
        configured.hasher = hasher;
        configured
    }
}

impl TtlConfiguration for TtlCacheBuilder {
    open spec fn ttl(&self) -> Duration {
        self.spec_duration()
    }

    fn duration(self, duration: Duration) -> (configured: Self)
        ensures
            configured.spec_action() == self.spec_action(),
            configured.spec_capacity() == self.spec_capacity(),
            configured.spec_hasher() == self.spec_hasher(),
    {
        let mut configured = self;
        configured.duration = duration;
        configured
    }
}

impl<V> View for TtlCache<V> {
    type V = Seq<Stored<V>>;

    /// The entries that are physically present, oldest first, expired ones
    /// included.
    closed spec fn view(&self) -> Seq<Stored<V>> {
        self.store@
    }
}

impl<V> TtlCache<V> {
    /// The store is consistent.
    pub closed spec fn inv(&self) -> bool {
        self.store.wf()
    }

    /// The cache is consistent, and so no key occurs twice in it.
    pub open spec fn wf(&self) -> bool {
        &&& self.inv()
        &&& distinct_keys(self@)
    }

    /// The configured maximum number of entries.
    pub closed spec fn limit(&self) -> nat {
        self.capacity as nat
    }

    /// The nanoseconds that an entry written by `insert` lives.
    pub closed spec fn ttl(&self) -> u128 {
        duration_nanos(self.settings.spec_duration())
    }

    /// The configured action on expiry.
    pub closed spec fn policy(&self) -> TtlRevalidationAction {
        self.settings.spec_action()
    }

    /// Capacity and settings of `self` are those of `other`.
    pub open spec fn configured_as(&self, other: &Self) -> bool {
        &&& self.limit() == other.limit()
        &&& self.ttl() == other.ttl()
        &&& self.policy() == other.policy()
    }

    /// The present instant on the cache's clock, in nanoseconds.
    pub fn now(&self) -> (nanos: u128) {
        self.clock.now()
    }

    /// The settings that the cache was built with.
    pub fn settings(&self) -> (settings: &TtlSettings)
        ensures
            settings.spec_action() == self.policy(),
            duration_nanos(settings.spec_duration()) == self.ttl(),
    {
        &self.settings
    }

    /// Writes `entry` under `key` at the instant `now`, with no regard to
    /// capacity, and returns the value that was stored under the key.
    pub(crate) fn put(&mut self, key: u64, entry: TtlEntry<V>, now: u128) -> (previous: Option<V>)
        requires
            old(self).wf(),
        ensures
            final(self).wf(),
            final(self).configured_as(old(self)),
            final(self)@ == placed(
                old(self)@,
                key,
                entry.value(),
                deadline(now, duration_nanos(entry.duration())),
            ),
            previous == stored_value(old(self)@, key),
    {
        let node = TtlNode::new(entry, now);
        match self.store.insert(key, node) {
            Some(before) => Some(before.into_value()),
            None => None,
        }
    }

    /// Writes `val` under `key` at the instant `now`, to live for the cache's
    /// time-to-live, and returns the value that was stored under the key.
    fn push(&mut self, key: u64, val: V, now: u128) -> (previous: Option<V>)
        requires
            old(self).wf(),
        ensures
            final(self).wf(),
            final(self).configured_as(old(self)),
            final(self)@ == placed(old(self)@, key, val, deadline(now, old(self).ttl())),
            previous == stored_value(old(self)@, key),
    {
        let entry = TtlEntry::new(val, *self.settings.duration());
        self.put(key, entry, now)
    }

    /// The status of the entry stored under `key` at the instant `now`.
    fn status(&self, key: u64, now: u128) -> (found: Option<TtlStatus>)
        requires
            self.wf(),
        ensures
            found == status(self@, key, now),
    {
        match self.store.get(key) {
            Some(node) => Some(node.validate(now)),
            None => None,
        }
    }

    /// The value stored under `key`, whatever its expiration.
    pub(crate) fn peek(&self, key: u64) -> (found: Option<&V>)
        requires
            self.wf(),
        ensures
            match found {
                Some(v) => stored_value(self@, key) == Some(*v),
                None => stored_value(self@, key).is_none(),
            },
    {
        match self.store.get(key) {
            Some(node) => Some(node.value()),
            None => None,
        }
    }

    /// The value stored under `key`, whatever its expiration, open to change.
    pub(crate) fn peek_mut(&mut self, key: u64) -> (found: Option<&mut V>)
        requires
            old(self).wf(),
        ensures
            final(self).wf(),
            final(self).configured_as(old(self)),
            match found {
                Some(v) => holds(old(self)@, key) && *v == old(self)@[position(old(self)@, key)].value
                    && final(self)@ == old(self)@.update(
                    position(old(self)@, key),
                    Stored {
                        key,
                        value: *final(v),
                        expiration: old(self)@[position(old(self)@, key)].expiration,
                    },
                ),
                None => !holds(old(self)@, key) && final(self)@ == old(self)@,
            },
    {
        match self.store.get_mut(key) {
            Some(node) => Some(node.value_mut()),
            None => None,
        }
    }

    /// Inserts a key-value pair into the cache at the instant `now`.
    ///
    /// A cache that has reached its capacity first gives up its oldest entry,
    /// whatever the key. The pair is written as the newest entry, to expire
    /// one time-to-live after `now`. Returns the value that the write replaced.
    pub fn insert_at(&mut self, key: u64, val: V, now: u128) -> (previous: Option<V>)
        requires
            old(self).wf(),
        ensures
            final(self).wf(),
            final(self).configured_as(old(self)),
            final(self)@ == inserted(old(self)@, old(self).limit(), key, val, deadline(now, old(self).ttl())),
            previous == displaced(old(self)@, old(self).limit(), key),
            old(self).limit() >= 1 && old(self)@.len() <= old(self).limit() ==> final(self)@.len() <= final(self).limit(),
    {
        if self.store.len() < self.capacity {
            self.push(key, val, now)
        } else {
            let _ = self.store.pop_front();
            self.push(key, val, now)
        }
    }

    /// Returns a reference to the value stored under `key` if it is valid at
    /// the instant `now`. An entry found expired is removed.
    pub fn get_at(&mut self, key: &u64, now: u128) -> (found: Option<&V>)
        requires
            old(self).wf(),
        ensures
            final(self).wf(),
            final(self).configured_as(old(self)),
            final(self)@ == purged(old(self)@, *key, now),
            match found {
                Some(v) => served(old(self)@, *key, now) == Some(*v),
                None => served(old(self)@, *key, now).is_none(),
            },
    {
        match self.status(*key, now) {
            Some(TtlStatus::Valid) => self.peek(*key),
            Some(TtlStatus::Expired) => {
                let _ = self.store.remove(*key);
                None
            },
            None => None,
        }
    }

    /// Returns a mutable reference to the value stored under `key` if it is
    /// valid at the instant `now`. An entry found expired is removed.
    pub fn get_mut_at(&mut self, key: &u64, now: u128) -> (found: Option<&mut V>)
        requires
            old(self).wf(),
        ensures
            final(self).wf(),
            final(self).configured_as(old(self)),
            match found {
                Some(v) => served(old(self)@, *key, now) == Some(*v) && final(self)@ == old(self)@.update(
                    position(old(self)@, *key),
                    Stored {
                        key: *key,
                        value: *final(v),
                        expiration: old(self)@[position(old(self)@, *key)].expiration,
                    },
                ),
                None => served(old(self)@, *key, now).is_none() && final(self)@ == purged(old(self)@, *key, now),
            },
    {
        match self.status(*key, now) {
            Some(TtlStatus::Valid) => self.peek_mut(*key),
            Some(TtlStatus::Expired) => {
                let _ = self.store.remove(*key);
                None
            },
            None => None,
        }
    }

    /// Looks `key` up at the instant `now` and returns a handle on its entry
    /// if the entry is valid. An entry found expired is removed, and no
    /// handle is given for it, nor for a key that is absent.
    pub fn entry_at(&mut self, key: u64, now: u128) -> (handle: Option<Entry<'_, V>>)
        requires
            old(self).wf(),
        ensures
            match handle {
                Some(entry) => status(old(self)@, key, now) == Some(TtlStatus::Valid) && entry is Occupied
                    && entry.wf() && entry.spec_key() == key && *entry.cache() == *old(self) && *final(self)
                    == *final(entry.cache()),
                None => status(old(self)@, key, now) != Some(TtlStatus::Valid) && final(self).wf() && final(self).configured_as(old(self)) && final(self)@ == purged(old(self)@, key, now),
            },
    {
        match self.status(key, now) {
            Some(TtlStatus::Valid) => Some(Entry::Occupied(OccupiedEntry::open(self, key))),
            Some(TtlStatus::Expired) => {
                let _ = self.store.remove(key);
                None
            },
            None => None,
        }
    }
}

impl<V> Cache<V> for TtlCache<V> {
    open spec fn valid(&self) -> bool {
        self.wf()
    }

    open spec fn entries(&self) -> Seq<Stored<V>> {
        self@
    }

    open spec fn room(&self) -> nat {
        self.limit()
    }

    open spec fn expiry(&self, now: u128) -> u128 {
        deadline(now, self.ttl())
    }

    fn capacity(&self) -> (capacity: usize) {
        self.capacity
    }

    fn clear(&mut self)
        ensures
            final(self).configured_as(old(self)),
    {
        self.store.clear();
    }

    /// An entry that has expired and was not looked up since counts.
    fn contains_key(&self, key: &u64) -> (found: bool) {
        self.store.contains_key(*key)
    }

    /// Reads the clock and looks the key up as `entry_at` does.
    fn entry(&mut self, key: u64) -> (handle: Option<Entry<'_, V>>)
        ensures
            match handle {
                Some(entry) => *entry.cache() == *old(self) && *final(self) == *final(entry.cache()),
                None => final(self).configured_as(old(self)),
            },
    {
        let now: u128 = self.now();
        let ghost at_now = status(old(self).entries(), key, now);
        self.entry_at(key, now)
    }

    /// Reads the clock and inserts as `insert_at` does.
    fn insert(&mut self, key: u64, val: V) -> (previous: Option<V>)
        ensures
            final(self).configured_as(old(self)),
    {
        let now: u128 = self.now();
        let ghost at_now = old(self).expiry(now);
        self.insert_at(key, val, now)
    }

    fn is_empty(&self) -> (empty: bool) {
        self.store.is_empty()
    }

    /// Reads the clock and looks the key up as `get_at` does.
    fn get(&mut self, k: &u64) -> (found: Option<&V>)
        ensures
            final(self).configured_as(old(self)),
    {
        let now: u128 = self.now();
        let ghost at_now = purged(old(self).entries(), *k, now);
        self.get_at(k, now)
    }

    /// Reads the clock and looks the key up as `get_mut_at` does.
    fn get_mut(&mut self, k: &u64) -> (found: Option<&mut V>)
        ensures
            final(self).configured_as(old(self)),
    {
        let now: u128 = self.now();
        let ghost at_now = served(old(self).entries(), *k, now);
        self.get_mut_at(k, now)
    }

    fn len(&self) -> (n: usize) {
        self.store.len()
    }

    /// The entry leaves whether it has expired or not.
    fn remove(&mut self, key: &u64) -> (removed: Option<V>)
        ensures
            final(self).configured_as(old(self)),
    {
        match self.store.remove(*key) {
            Some(node) => Some(node.into_value()),
            None => None,
        }
    }
}

} // verus!
