use ttl_cache::ttl::cache::TtlCache;
use ttl_cache::ttl::cache::TtlCacheBuilder;
use ttl_cache::ttl::cache::DEFAULT_CAPACITY;
use ttl_cache::Cache;
use ttl_cache::CacheConfiguration;

fn cache_of(capacity: usize) -> TtlCache<&'static str> {
    TtlCacheBuilder::new().capacity(capacity).build()
}

#[test]
fn oldest_entry_leaves_when_full() {
    let mut cache = cache_of(2);
    assert_eq!(cache.insert(1, "a"), None);
    assert_eq!(cache.insert(2, "b"), None);
    assert_eq!(cache.insert(3, "c"), None);
    assert!(!cache.contains_key(&1));
    assert_eq!(cache.get(&2), Some(&"b"));
    assert_eq!(cache.get(&3), Some(&"c"));
    assert_eq!(cache.len(), 2);
}

#[test]
fn len_never_passes_capacity() {
    let mut cache = cache_of(3);
    assert_eq!(cache.capacity(), 3);
    for key in 0..50u64 {
        cache.insert(key % 7, "v");
        assert!(cache.len() <= cache.capacity());
    }
    assert_eq!(cache.len(), 3);
}

#[test]
fn capacity_of_one_keeps_the_last_insert() {
    let mut cache = cache_of(1);
    cache.insert(1, "a");
    cache.insert(2, "b");
    assert_eq!(cache.len(), 1);
    assert!(!cache.contains_key(&1));
    assert_eq!(cache.get(&2), Some(&"b"));
}

#[test]
fn capacity_of_zero_still_holds_the_last_insert() {
    let mut cache = cache_of(0);
    assert_eq!(cache.capacity(), 0);
    assert_eq!(cache.insert(1, "a"), None);
    assert_eq!(cache.len(), 1);
    assert_eq!(cache.insert(2, "b"), None);
    assert_eq!(cache.len(), 1);
    assert!(!cache.contains_key(&1));
    assert!(cache.contains_key(&2));
}

#[test]
fn reading_does_not_renew_an_entry() {
    let mut cache = cache_of(2);
    cache.insert(1, "a");
    cache.insert(2, "b");
    assert_eq!(cache.get(&1), Some(&"a"));
    assert_eq!(cache.get(&1), Some(&"a"));
    cache.insert(3, "c");
    assert!(!cache.contains_key(&1));
    assert!(cache.contains_key(&2));
    assert!(cache.contains_key(&3));
}

#[test]
fn overwriting_makes_the_entry_the_newest() {
    let mut cache = cache_of(3);
    cache.insert(1, "a");
    cache.insert(2, "b");
    assert_eq!(cache.insert(1, "a2"), Some("a"));
    assert_eq!(cache.len(), 2);
    cache.insert(3, "c");
    cache.insert(4, "d");
    assert!(!cache.contains_key(&2));
    assert_eq!(cache.get(&1), Some(&"a2"));
    assert_eq!(cache.get(&3), Some(&"c"));
    assert_eq!(cache.get(&4), Some(&"d"));
}

#[test]
fn full_cache_evicts_even_for_an_overwrite() {
    let mut cache = cache_of(2);
    cache.insert(1, "a");
    cache.insert(2, "b");
    assert_eq!(cache.insert(2, "b2"), Some("b"));
    assert_eq!(cache.len(), 1);
    assert!(!cache.contains_key(&1));
    assert_eq!(cache.get(&2), Some(&"b2"));
}

#[test]
fn overwrite_of_the_oldest_in_a_full_cache_returns_nothing() {
    let mut cache = cache_of(2);
    cache.insert(1, "a");
    cache.insert(2, "b");
    assert_eq!(cache.insert(1, "a2"), None);
    assert_eq!(cache.len(), 2);
    assert_eq!(cache.get(&1), Some(&"a2"));
    assert_eq!(cache.get(&2), Some(&"b"));
    cache.insert(3, "c");
    assert!(!cache.contains_key(&2));
    assert!(cache.contains_key(&1));
}

#[test]
fn removal_keeps_the_order_of_the_rest() {
    let mut cache = cache_of(3);
    cache.insert(1, "a");
    cache.insert(2, "b");
    cache.insert(3, "c");
    assert_eq!(cache.remove(&1), Some("a"));
    assert_eq!(cache.remove(&1), None);
    assert_eq!(cache.len(), 2);
    assert_eq!(cache.get(&3), Some(&"c"));
    assert_eq!(cache.get(&2), Some(&"b"));
    cache.insert(4, "d");
    assert_eq!(cache.len(), 3);
    cache.insert(5, "e");
    assert!(!cache.contains_key(&2));
    assert_eq!(cache.get(&3), Some(&"c"));
    assert_eq!(cache.get(&4), Some(&"d"));
    assert_eq!(cache.get(&5), Some(&"e"));
}

#[test]
fn removal_from_the_middle_keeps_every_other_value() {
    let mut cache: TtlCache<u64> = TtlCacheBuilder::new().capacity(16).build();
    for key in 0..10u64 {
        cache.insert(key, key * 100);
    }
    assert_eq!(cache.remove(&4), Some(400));
    assert_eq!(cache.remove(&0), Some(0));
    assert_eq!(cache.remove(&9), Some(900));
    assert_eq!(cache.len(), 7);
    for key in [1u64, 2, 3, 5, 6, 7, 8] {
        assert_eq!(cache.get(&key), Some(&(key * 100)));
    }
    for key in [0u64, 4, 9] {
        assert!(!cache.contains_key(&key));
    }
}

#[test]
fn clear_empties_and_keeps_the_capacity() {
    let mut cache = cache_of(2);
    assert!(cache.is_empty());
    cache.insert(1, "a");
    cache.insert(2, "b");
    assert!(!cache.is_empty());
    cache.clear();
    assert!(cache.is_empty());
    assert_eq!(cache.len(), 0);
    assert_eq!(cache.capacity(), 2);
    assert!(!cache.contains_key(&1));
    cache.insert(3, "c");
    assert_eq!(cache.get(&3), Some(&"c"));
}

#[test]
fn default_capacity_is_1024() {
    let mut cache: TtlCache<u64> = TtlCacheBuilder::new().build();
    assert_eq!(DEFAULT_CAPACITY, 1024);
    assert_eq!(cache.capacity(), 1024);
    for key in 0..1025u64 {
        cache.insert(key, key);
    }
    assert_eq!(cache.len(), 1024);
    assert!(!cache.contains_key(&0));
    assert!(cache.contains_key(&1));
    assert!(cache.contains_key(&1024));
}

#[test]
fn get_mut_changes_the_stored_value() {
    let mut cache: TtlCache<u64> = TtlCacheBuilder::new().capacity(2).build();
    cache.insert(1, 10);
    match cache.get_mut(&1) {
        Some(v) => *v += 5,
        None => panic!("the entry was just written"),
    }
    assert_eq!(cache.get(&1), Some(&15));
    assert!(cache.get_mut(&2).is_none());
}
