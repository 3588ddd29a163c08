//! What follows from the contracts of the cache, stated over the model and
//! proved.
//!
//! Each law speaks of the sequences that the cache's operations are specified
//! by: `inserted` and `displaced` for an insert, `served` and `purged` for a
//! read, `stored_value` and `without` for a removal, `placed` for a write
//! through a handle. Instants are nanoseconds on the cache's clock.

use crate::clock::deadline;
use crate::model::displaced;
use crate::model::distinct_keys;
use crate::model::evicted;
use crate::model::holds;
use crate::model::inserted;
use crate::model::lemma_position_unique;
use crate::model::placed;
use crate::model::position;
use crate::model::purged;
use crate::model::served;
use crate::model::status;
use crate::model::stored_value;
use crate::model::without;
use crate::model::Stored;
use crate::ttl::TtlStatus;
use vstd::prelude::*;

verus! {

/// The store after a run of inserts, each with the key, the value and the
/// expiration of one element of `writes`, the first element first.
pub open spec fn after_inserts<V>(s: Seq<Stored<V>>, capacity: nat, writes: Seq<Stored<V>>) -> Seq<Stored<V>>
    decreases writes.len(),
{
    if writes.len() == 0 {
        s
    } else {
        inserted(
            after_inserts(s, capacity, writes.drop_last()),
            capacity,
            writes.last().key,
            writes.last().value,
            writes.last().expiration,
        )
    }
}

/// Taking the entry of a key away leaves no entry of that key, moves no other
/// entry past another, and touches no other key.
pub proof fn without_forgets_the_key<V>(s: Seq<Stored<V>>, key: u64)
    requires
        distinct_keys(s),
    ensures
        distinct_keys(without(s, key)),
        !holds(without(s, key), key),
        without(s, key).len() == if holds(s, key) {
            s.len() - 1
        } else {
            s.len() as int
        },
        forall|other: u64| other != key ==> holds(without(s, key), other) == holds(s, other),
        forall|other: u64| other != key ==> stored_value(without(s, key), other) == stored_value(s, other),
{
    let r = without(s, key);
    if holds(s, key) {
        let j = position(s, key);
        assert forall|i: int| 0 <= i < r.len() implies (#[trigger] r[i]) == s[if i < j {
            i
        } else {
            i + 1
        }] by {}
        assert forall|a: int, b: int| 0 <= a < r.len() && 0 <= b < r.len() && a != b implies (#[trigger] r[a]).key
            != (#[trigger] r[b]).key by {
            let a0 = if a < j { a } else { a + 1 };
            let b0 = if b < j { b } else { b + 1 };
            assert(r[a] == s[a0] && r[b] == s[b0]);
        }
        if holds(r, key) {
            let i = position(r, key);
            let i0 = if i < j { i } else { i + 1 };
            assert(r[i] == s[i0]);
            assert(s[i0].key == s[j].key);
        }
        assert forall|other: u64| other != key implies holds(r, other) == holds(s, other) && stored_value(
            r,
            other,
        ) == stored_value(s, other) by {
            if holds(s, other) {
                let p = position(s, other);
                let p1 = if p < j { p } else { p - 1 };
                assert(r[p1] == s[p]);
                lemma_position_unique(r, other, p1);
            }
            if holds(r, other) {
                let p = position(r, other);
                let p0 = if p < j { p } else { p + 1 };
                assert(r[p] == s[p0]);
                lemma_position_unique(s, other, p0);
            }
        }
    }
}

/// A write puts its entry last and leaves the entries of other keys as they
/// were.
pub proof fn placed_entry_is_newest<V>(s: Seq<Stored<V>>, key: u64, value: V, expiration: u128)
    requires
        distinct_keys(s),
    ensures
        distinct_keys(placed(s, key, value, expiration)),
        holds(placed(s, key, value, expiration), key),
        position(placed(s, key, value, expiration), key) == placed(s, key, value, expiration).len() - 1,
        placed(s, key, value, expiration).last() == (Stored { key, value, expiration }),
        placed(s, key, value, expiration).len() == without(s, key).len() + 1,
        forall|other: u64|
            other != key ==> holds(placed(s, key, value, expiration), other) == holds(s, other),
        forall|other: u64|
            other != key ==> stored_value(placed(s, key, value, expiration), other) == stored_value(s, other),
{
    without_forgets_the_key(s, key);
    let w = without(s, key);
    let r = placed(s, key, value, expiration);
    let last = r.len() - 1;
    assert(r[last].key == key);
    assert forall|a: int, b: int| 0 <= a < r.len() && 0 <= b < r.len() && a != b implies (#[trigger] r[a]).key
        != (#[trigger] r[b]).key by {
        if a < last {
            assert(r[a] == w[a]);
        }
        if b < last {
            assert(r[b] == w[b]);
        }
    }
    lemma_position_unique(r, key, last);
    assert forall|other: u64| other != key implies holds(r, other) == holds(s, other) && stored_value(r, other)
        == stored_value(s, other) by {
        if holds(w, other) {
            let p = position(w, other);
            assert(r[p] == w[p]);
            lemma_position_unique(r, other, p);
        }
        if holds(r, other) {
            let p = position(r, other);
            assert(r[p] == w[p]);
            lemma_position_unique(w, other, p);
        }
    }
}

/// Eviction keeps the keys distinct.
pub proof fn evicted_keeps_keys_distinct<V>(s: Seq<Stored<V>>, capacity: nat)
    requires
        distinct_keys(s),
    ensures
        distinct_keys(evicted(s, capacity)),
{
    let r = evicted(s, capacity);
    if s.len() >= capacity && s.len() > 0 {
        assert forall|a: int, b: int| 0 <= a < r.len() && 0 <= b < r.len() && a != b implies (#[trigger] r[a]).key
            != (#[trigger] r[b]).key by {
            assert(r[a] == s[a + 1] && r[b] == s[b + 1]);
        }
    }
}

/// Capacity, one insert: a cache with room for at least one entry that is
/// within its capacity is within its capacity after an insert.
pub proof fn insert_keeps_capacity<V>(s: Seq<Stored<V>>, capacity: nat, key: u64, value: V, expiration: u128)
    requires
        distinct_keys(s),
        capacity >= 1,
        s.len() <= capacity,
    ensures
        distinct_keys(inserted(s, capacity, key, value, expiration)),
        inserted(s, capacity, key, value, expiration).len() <= capacity,
{
    evicted_keeps_keys_distinct(s, capacity);
    placed_entry_is_newest(evicted(s, capacity), key, value, expiration);
    without_forgets_the_key(evicted(s, capacity), key);
}

/// Capacity, every run of inserts: a cache with room for at least one entry
/// that is within its capacity, as an empty one is, holds no more entries
/// than its capacity after each insert of the run.
pub proof fn inserts_keep_capacity<V>(s: Seq<Stored<V>>, capacity: nat, writes: Seq<Stored<V>>)
    requires
        distinct_keys(s),
        capacity >= 1,
        s.len() <= capacity,
    ensures
        forall|n: int|
            0 <= n <= writes.len() ==> (#[trigger] after_inserts(s, capacity, writes.take(n))).len() <= capacity,
        distinct_keys(after_inserts(s, capacity, writes)),
    decreases writes.len(),
{
    if writes.len() > 0 {
        let earlier = writes.drop_last();
        inserts_keep_capacity(s, capacity, earlier);
        assert(earlier.take(earlier.len() as int) =~= earlier);
        insert_keeps_capacity(
            after_inserts(s, capacity, earlier),
            capacity,
            writes.last().key,
            writes.last().value,
            writes.last().expiration,
        );
        assert forall|n: int| 0 <= n <= writes.len() implies (#[trigger] after_inserts(
            s,
            capacity,
            writes.take(n),
        )).len() <= capacity by {
            if n < writes.len() {
                assert(writes.take(n) =~= earlier.take(n));
            } else {
                assert(writes.take(n) =~= writes);
            }
        }
    } else {
        assert forall|n: int| 0 <= n <= writes.len() implies (#[trigger] after_inserts(
            s,
            capacity,
            writes.take(n),
        )).len() <= capacity by {
            assert(writes.take(n) =~= writes);
        }
    }
}

/// Eviction is by age alone: an insert into a cache that has reached its
/// capacity removes the oldest entry, unless the insert writes that very
/// key, and keeps every other entry.
pub proof fn full_insert_evicts_oldest<V>(s: Seq<Stored<V>>, capacity: nat, key: u64, value: V, expiration: u128)
    requires
        distinct_keys(s),
        s.len() > 0,
        s.len() >= capacity,
    ensures
        s[0].key != key ==> !holds(inserted(s, capacity, key, value, expiration), s[0].key),
        forall|i: int|
            1 <= i < s.len() && (#[trigger] s[i]).key != key ==> stored_value(
                inserted(s, capacity, key, value, expiration),
                s[i].key,
            ) == Some(s[i].value),
        stored_value(inserted(s, capacity, key, value, expiration), key) == Some(value),
{
    let e = evicted(s, capacity);
    let r = inserted(s, capacity, key, value, expiration);
    evicted_keeps_keys_distinct(s, capacity);
    placed_entry_is_newest(e, key, value, expiration);
    if s[0].key != key {
        if holds(e, s[0].key) {
            let p = position(e, s[0].key);
            assert(e[p] == s[p + 1]);
        }
    }
    assert forall|i: int| 1 <= i < s.len() && (#[trigger] s[i]).key != key implies stored_value(r, s[i].key)
        == Some(s[i].value) by {
        assert(e[i - 1] == s[i]);
        lemma_position_unique(e, s[i].key, i - 1);
    }
}

/// Round trip: a value that was inserted at `written` is served unchanged by
/// a read at any instant up to the end of its time-to-live, and the read
/// leaves the cache as it was.
pub proof fn fresh_entry_is_served<V>(
    s: Seq<Stored<V>>,
    capacity: nat,
    key: u64,
    value: V,
    ttl: u128,
    written: u128,
    read: u128,
)
    requires
        distinct_keys(s),
        read <= written + ttl,
    ensures
        served(inserted(s, capacity, key, value, deadline(written, ttl)), key, read) == Some(value),
        purged(inserted(s, capacity, key, value, deadline(written, ttl)), key, read) == inserted(
            s,
            capacity,
            key,
            value,
            deadline(written, ttl),
        ),
{
    evicted_keeps_keys_distinct(s, capacity);
    placed_entry_is_newest(evicted(s, capacity), key, value, deadline(written, ttl));
}

/// Lazy expiry, and how it parts a read from a look at the keys: once the
/// time-to-live of an inserted entry has passed, the entry is still there and
/// still counted, a read serves nothing, and after the read the entry is
/// gone and the cache is one entry shorter.
pub proof fn stale_entry_is_purged_by_a_read<V>(
    s: Seq<Stored<V>>,
    capacity: nat,
    key: u64,
    value: V,
    ttl: u128,
    written: u128,
    read: u128,
)
    requires
        distinct_keys(s),
        read > written + ttl,
    ensures
        holds(inserted(s, capacity, key, value, deadline(written, ttl)), key),
        status(inserted(s, capacity, key, value, deadline(written, ttl)), key, read) == Some(TtlStatus::Expired),
        served(inserted(s, capacity, key, value, deadline(written, ttl)), key, read).is_none(),
        !holds(purged(inserted(s, capacity, key, value, deadline(written, ttl)), key, read), key),
        purged(inserted(s, capacity, key, value, deadline(written, ttl)), key, read).len() == inserted(
            s,
            capacity,
            key,
            value,
            deadline(written, ttl),
        ).len() - 1,
{
    let r = inserted(s, capacity, key, value, deadline(written, ttl));
    evicted_keeps_keys_distinct(s, capacity);
    placed_entry_is_newest(evicted(s, capacity), key, value, deadline(written, ttl));
    without_forgets_the_key(r, key);
}

/// A removal does not look at the clock: it returns the value of an inserted
/// entry at an instant at which a read serves nothing.
pub proof fn removal_returns_stale_value<V>(
    s: Seq<Stored<V>>,
    capacity: nat,
    key: u64,
    value: V,
    ttl: u128,
    written: u128,
    read: u128,
)
    requires
        distinct_keys(s),
        read > written + ttl,
    ensures
        served(inserted(s, capacity, key, value, deadline(written, ttl)), key, read).is_none(),
        stored_value(inserted(s, capacity, key, value, deadline(written, ttl)), key) == Some(value),
        !holds(without(inserted(s, capacity, key, value, deadline(written, ttl)), key), key),
{
    let r = inserted(s, capacity, key, value, deadline(written, ttl));
    evicted_keeps_keys_distinct(s, capacity);
    placed_entry_is_newest(evicted(s, capacity), key, value, deadline(written, ttl));
    without_forgets_the_key(r, key);
}

/// A lookup for a handle that finds the entry expired leaves no entry of the
/// key behind.
pub proof fn expired_lookup_purges<V>(s: Seq<Stored<V>>, key: u64, now: u128)
    requires
        distinct_keys(s),
        status(s, key, now) == Some(TtlStatus::Expired),
    ensures
        holds(s, key),
        !holds(purged(s, key, now), key),
        purged(s, key, now).len() == s.len() - 1,
{
    without_forgets_the_key(s, key);
}

/// A write through an occupied handle: the value that is returned is the one
/// that was stored, a read up to the end of the new time-to-live serves the
/// new value, and the entry expires when the new time-to-live, counted from
/// the write, is over.
pub proof fn occupied_write_refreshes<V>(
    s: Seq<Stored<V>>,
    key: u64,
    value: V,
    ttl: u128,
    written: u128,
    read: u128,
)
    requires
        distinct_keys(s),
        holds(s, key),
        read <= written + ttl,
    ensures
        stored_value(s, key) == Some(s[position(s, key)].value),
        served(placed(s, key, value, deadline(written, ttl)), key, read) == Some(value),
        placed(s, key, value, deadline(written, ttl))[position(
            placed(s, key, value, deadline(written, ttl)),
            key,
        )].expiration == deadline(written, ttl),
        placed(s, key, value, deadline(written, ttl)).len() == s.len(),
{
    placed_entry_is_newest(s, key, value, deadline(written, ttl));
    without_forgets_the_key(s, key);
}

/// A write through a vacant handle: a read up to the end of the time-to-live
/// serves the value that was written.
pub proof fn vacant_write_is_served<V>(s: Seq<Stored<V>>, key: u64, value: V, ttl: u128, written: u128, read: u128)
    requires
        distinct_keys(s),
        !holds(s, key),
        read <= written + ttl,
    ensures
        served(s.push(Stored { key, value, expiration: deadline(written, ttl) }), key, read) == Some(value),
        distinct_keys(s.push(Stored { key, value, expiration: deadline(written, ttl) })),
{
    placed_entry_is_newest(s, key, value, deadline(written, ttl));
}

/// What an insert returns is the value that was stored under the key, unless
/// the cache was full and that entry was its oldest.
pub proof fn insert_returns_stored_value<V>(s: Seq<Stored<V>>, capacity: nat, key: u64)
    requires
        distinct_keys(s),
    ensures
        s.len() < capacity ==> displaced(s, capacity, key) == stored_value(s, key),
        s.len() >= capacity && s.len() > 0 && s[0].key != key ==> displaced(s, capacity, key) == stored_value(
            s,
            key,
        ),
        s.len() >= capacity && s.len() > 0 && s[0].key == key ==> displaced(s, capacity, key).is_none(),
{
    if s.len() >= capacity && s.len() > 0 {
        let e = evicted(s, capacity);
        evicted_keeps_keys_distinct(s, capacity);
        if holds(e, key) {
            let p = position(e, key);
            assert(e[p] == s[p + 1]);
            lemma_position_unique(s, key, p + 1);
        }
        if holds(s, key) {
            let p = position(s, key);
            if p > 0 {
                assert(e[p - 1] == s[p]);
                lemma_position_unique(e, key, p - 1);
            } else {
                lemma_position_unique(s, key, 0);
            }
        }
        if s[0].key == key {
            lemma_position_unique(s, key, 0);
        }
    }
}

} // verus!
