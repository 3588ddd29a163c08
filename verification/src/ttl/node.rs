use crate::clock::deadline;
use crate::clock::deadline_after;
use crate::clock::duration_nanos;
use crate::model::status_at;
use crate::ttl::TtlStatus;
use crate::CacheNode;
use std::time::Duration;
use vstd::prelude::*;

verus! {

/// A value together with the time it is to live: what a node is made or
/// refreshed from.
pub struct TtlEntry<V> {
    value: V,
    duration: Duration,
}

/// A stored value together with the instant at which it expires.
pub struct TtlNode<V> {
    value: V,
    expiration: u128,
}

impl<V> TtlEntry<V> {
    /// The value to store.
    pub closed spec fn value(&self) -> V {
        self.value
    }

    /// The time the value is to live.
    pub closed spec fn duration(&self) -> Duration {
        self.duration
    }

    /// Pairs a value with the time it is to live.
    pub fn new(value: V, duration: Duration) -> (entry: Self)
        ensures
            entry.value() == value,
            entry.duration() == duration,
    {
        Self { value, duration }
    }
}

impl<V> TtlNode<V> {
    /// The instant, in nanoseconds on the cache's clock, after which the node
    /// is expired.
    pub closed spec fn expiration(&self) -> u128 {
        self.expiration
    }

    /// A node for `entry`, written at the instant `now`.
    pub fn new(entry: TtlEntry<V>, now: u128) -> (node: Self)
        ensures
            node.held() == entry.value(),
            node.expiration() == deadline(now, duration_nanos(entry.duration())),
    {
        let ttl: u128 = entry.duration.as_nanos();
        Self { value: entry.value, expiration: deadline_after(now, ttl) }
    }

    /// Overwrites the node with `entry`, written at the instant `now`, and
    /// hands out the new value.
    pub fn insert(&mut self, entry: TtlEntry<V>, now: u128) -> (v: &mut V)
        ensures
            *v == entry.value(),
            final(self).held() == *final(v),
            final(self).expiration() == deadline(now, duration_nanos(entry.duration())),
    {
        let ttl: u128 = entry.duration.as_nanos();
        self.value = entry.value;
        self.expiration = deadline_after(now, ttl);
        &mut self.value
    }

    /// The status of the node at the instant `now`: valid up to and including
    /// the instant of expiration.
    pub fn validate(&self, now: u128) -> (status: TtlStatus)
        ensures
            status == status_at(self.expiration(), now),
    {
        if now > self.expiration {
            TtlStatus::Expired
        } else {
            TtlStatus::Valid
        }
    }

    /// The instant after which the node is expired.
    pub fn expires_at(&self) -> (at: u128)
        ensures
            at == self.expiration(),
    {
        self.expiration
    }
}

impl<V> CacheNode<V> for TtlNode<V> {
    closed spec fn held(&self) -> V {
        self.value
    }

    fn value(&self) -> (v: &V) {
        &self.value
    }

    fn value_mut(&mut self) -> (v: &mut V)
        ensures
            final(self).expiration() == old(self).expiration(),
    {
        &mut self.value
    }

    fn into_value(self) -> (v: V) {
        self.value
    }
}

} // verus!
