use std::time::Duration;
use ttl_cache::entries::Entry;
use ttl_cache::ttl::cache::TtlCache;
use ttl_cache::ttl::cache::TtlCacheBuilder;
use ttl_cache::ttl::TtlConfiguration;
use ttl_cache::Cache;
use ttl_cache::CacheConfiguration;

fn cache_living(ttl: Duration) -> TtlCache<&'static str> {
    TtlCacheBuilder::new().capacity(4).duration(ttl).build()
}

#[test]
fn entry_on_an_absent_key_gives_no_handle() {
    let mut cache = cache_living(Duration::from_secs(60));
    assert!(cache.entry(1).is_none());
    assert!(cache.entry_at(1, 0).is_none());
    assert_eq!(cache.len(), 0);
}

#[test]
fn entry_on_a_valid_key_is_occupied() {
    let mut cache = cache_living(Duration::from_secs(60));
    cache.insert(1, "v");
    match cache.entry(1) {
        Some(Entry::Occupied(handle)) => {
            assert_eq!(handle.key(), &1);
            assert_eq!(handle.get(), &"v");
        },
        _ => panic!("a valid key gives an occupied handle"),
    }
    assert_eq!(cache.len(), 1);
}

#[test]
fn entry_key_is_the_key_asked_for() {
    let mut cache = cache_living(Duration::from_secs(60));
    cache.insert(9, "v");
    match cache.entry(9) {
        Some(entry) => assert_eq!(entry.key(), &9),
        None => panic!("a valid key gives a handle"),
    }
}

#[test]
fn occupied_insert_returns_the_old_value_and_refreshes() {
    let mut cache = cache_living(Duration::from_millis(10));
    cache.insert_at(1, "v", 0);
    match cache.entry_at(1, 5_000_000) {
        Some(Entry::Occupied(handle)) => {
            assert_eq!(handle.insert_at("v2", Duration::from_millis(100), 5_000_000), "v");
        },
        _ => panic!("a valid key gives an occupied handle"),
    }
    assert_eq!(cache.len(), 1);
    assert_eq!(cache.get_at(&1, 50_000_000), Some(&"v2"));
    assert_eq!(cache.get_at(&1, 105_000_000), Some(&"v2"));
    assert_eq!(cache.get_at(&1, 105_000_001), None);
}

#[test]
fn occupied_insert_reads_the_clock() {
    let mut cache = cache_living(Duration::from_secs(60));
    cache.insert(1, "v");
    match cache.entry(1) {
        Some(Entry::Occupied(handle)) => {
            assert_eq!(handle.insert("v2", Duration::from_secs(60)), "v");
        },
        _ => panic!("a valid key gives an occupied handle"),
    }
    assert_eq!(cache.get(&1), Some(&"v2"));
    assert_eq!(cache.len(), 1);
}

#[test]
fn occupied_insert_makes_the_entry_the_newest() {
    let mut cache: TtlCache<&str> = TtlCacheBuilder::new().capacity(2).build();
    cache.insert(1, "a");
    cache.insert(2, "b");
    match cache.entry(1) {
        Some(Entry::Occupied(handle)) => {
            handle.insert("a2", Duration::from_secs(60));
        },
        _ => panic!("a valid key gives an occupied handle"),
    }
    cache.insert(3, "c");
    assert!(!cache.contains_key(&2));
    assert_eq!(cache.get(&1), Some(&"a2"));
}

#[test]
fn occupied_get_mut_writes_through() {
    let mut cache: TtlCache<u64> = TtlCacheBuilder::new().capacity(2).build();
    cache.insert(1, 10);
    cache.insert(2, 20);
    match cache.entry(1) {
        Some(Entry::Occupied(mut handle)) => {
            *handle.get_mut() += 1;
            assert_eq!(handle.get(), &11);
        },
        _ => panic!("a valid key gives an occupied handle"),
    }
    assert_eq!(cache.get(&1), Some(&11));
    assert_eq!(cache.get(&2), Some(&20));
    cache.insert(3, 30);
    assert!(!cache.contains_key(&1));
}

#[test]
fn entry_on_an_expired_key_purges_it() {
    let mut cache = cache_living(Duration::from_millis(10));
    cache.insert_at(1, "v", 0);
    cache.insert_at(2, "w", 0);
    assert!(cache.contains_key(&1));
    assert!(cache.entry_at(1, 10_000_001).is_none());
    assert!(!cache.contains_key(&1));
    assert!(cache.contains_key(&2));
    assert_eq!(cache.len(), 1);
}

#[test]
fn entry_on_an_expired_key_purges_it_by_the_clock() {
    let mut cache = cache_living(Duration::from_millis(1));
    cache.insert(1, "v");
    let start = cache.now();
    while cache.now() < start + 5_000_000 {}
    assert!(cache.contains_key(&1));
    assert!(cache.entry(1).is_none());
    assert!(!cache.contains_key(&1));
}

#[test]
fn entry_at_the_last_instant_is_occupied() {
    let mut cache = cache_living(Duration::from_millis(10));
    cache.insert_at(1, "v", 0);
    assert!(matches!(cache.entry_at(1, 10_000_000), Some(Entry::Occupied(_))));
    assert!(cache.contains_key(&1));
}
