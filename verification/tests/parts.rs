use std::hash::RandomState;
use std::time::Duration;
use ttl_cache::clock::deadline_after;
use ttl_cache::clock::Clock;
use ttl_cache::store::OrderedStore;
use ttl_cache::ttl::cache::TtlCache;
use ttl_cache::ttl::cache::TtlCacheBuilder;
use ttl_cache::ttl::node::TtlEntry;
use ttl_cache::ttl::node::TtlNode;
use ttl_cache::ttl::settings::TtlRevalidationAction;
use ttl_cache::ttl::settings::TtlSettings;
use ttl_cache::ttl::settings::DEFAULT_TTL;
use ttl_cache::ttl::TtlConfiguration;
use ttl_cache::ttl::TtlStatus;
use ttl_cache::Cache;
use ttl_cache::CacheConfiguration;
use ttl_cache::CacheNode;

#[test]
fn deadline_is_the_sum() {
    assert_eq!(deadline_after(0, 0), 0);
    assert_eq!(deadline_after(1_000, 10_000_000), 10_001_000);
    assert_eq!(deadline_after(u128::MAX - 1, 1), u128::MAX);
}

#[test]
fn deadline_saturates() {
    assert_eq!(deadline_after(u128::MAX, 1), u128::MAX);
    assert_eq!(deadline_after(u128::MAX - 1, 2), u128::MAX);
    assert_eq!(deadline_after(5, u128::MAX), u128::MAX);
}

#[test]
fn clock_counts_from_its_start() {
    let clock = Clock::start();
    let first = clock.now();
    let mut second = clock.now();
    while second < first + 2_000_000 {
        second = clock.now();
    }
    assert!(second >= first + 2_000_000);
    assert!(first < 60_000_000_000);
}

#[test]
fn node_expires_one_duration_after_it_was_written() {
    let node = TtlNode::new(TtlEntry::new("v", Duration::from_millis(10)), 500);
    assert_eq!(node.expires_at(), 10_000_500);
    assert_eq!(node.value(), &"v");
    assert_eq!(node.validate(500), TtlStatus::Valid);
    assert_eq!(node.validate(10_000_500), TtlStatus::Valid);
    assert_eq!(node.validate(10_000_501), TtlStatus::Expired);
    assert_eq!(node.into_value(), "v");
}

#[test]
fn node_counts_seconds_and_fractions() {
    let node = TtlNode::new(TtlEntry::new(0u8, Duration::new(2, 7)), 1);
    assert_eq!(node.expires_at(), 2_000_000_008);
}

#[test]
fn node_insert_overwrites_value_and_expiration() {
    let mut node = TtlNode::new(TtlEntry::new(1u32, Duration::from_nanos(10)), 0);
    assert_eq!(node.expires_at(), 10);
    {
        let value = node.insert(TtlEntry::new(2u32, Duration::from_nanos(30)), 100);
        assert_eq!(*value, 2);
        *value = 3;
    }
    assert_eq!(node.value(), &3);
    assert_eq!(node.expires_at(), 130);
    assert_eq!(node.validate(131), TtlStatus::Expired);
}

#[test]
fn node_value_mut_keeps_the_expiration() {
    let mut node = TtlNode::new(TtlEntry::new(1u32, Duration::from_nanos(10)), 5);
    *node.value_mut() = 9;
    assert_eq!(node.value(), &9);
    assert_eq!(node.expires_at(), 15);
}

#[test]
fn settings_hold_what_they_were_given() {
    let settings = TtlSettings::new(TtlRevalidationAction::Revalidate, Duration::from_secs(5));
    assert_eq!(settings.action(), &TtlRevalidationAction::Revalidate);
    assert_eq!(settings.duration(), &Duration::from_secs(5));
    let (action, duration) = settings.split();
    assert_eq!(action, TtlRevalidationAction::Revalidate);
    assert_eq!(duration, Duration::from_secs(5));
}

#[test]
fn settings_default_to_expire_after_thirty_seconds() {
    let settings = TtlSettings::default();
    assert_eq!(DEFAULT_TTL, 30);
    assert_eq!(settings.action(), &TtlRevalidationAction::Expire);
    assert_eq!(settings.duration(), &Duration::from_secs(30));
    assert_eq!(TtlRevalidationAction::default(), TtlRevalidationAction::Expire);
}

#[test]
fn builder_hands_its_configuration_to_the_cache() {
    let cache: TtlCache<u8> = TtlCacheBuilder::new()
        .capacity(5)
        .hasher(RandomState::new())
        .duration(Duration::from_secs(2))
        .action(TtlRevalidationAction::Revalidate)
        .build();
    assert_eq!(cache.capacity(), 5);
    assert_eq!(cache.settings().duration(), &Duration::from_secs(2));
    assert_eq!(cache.settings().action(), &TtlRevalidationAction::Revalidate);
    assert!(cache.is_empty());
}

#[test]
fn builder_takes_settings_whole() {
    let settings = TtlSettings::new(TtlRevalidationAction::Revalidate, Duration::from_millis(7));
    let mut cache: TtlCache<u8> = TtlCacheBuilder::new().settings(settings).build();
    assert_eq!(cache.capacity(), 1024);
    assert_eq!(cache.settings().action(), &TtlRevalidationAction::Revalidate);
    cache.insert_at(1, 1, 0);
    assert_eq!(cache.get_at(&1, 7_000_000), Some(&1));
    assert_eq!(cache.get_at(&1, 7_000_001), None);
}

#[test]
fn revalidate_action_expires_all_the_same() {
    let mut cache: TtlCache<u8> = TtlCacheBuilder::new()
        .action(TtlRevalidationAction::Revalidate)
        .duration(Duration::from_nanos(10))
        .build();
    cache.insert_at(1, 1, 0);
    assert_eq!(cache.get_at(&1, 11), None);
    assert_eq!(cache.len(), 0);
}

fn node(value: u32) -> TtlNode<u32> {
    TtlNode::new(TtlEntry::new(value, Duration::from_nanos(10)), 0)
}

#[test]
fn store_walks_in_insertion_order() {
    let mut store: OrderedStore<u32> = OrderedStore::new(RandomState::new());
    assert!(store.is_empty());
    assert!(store.insert(5, node(50)).is_none());
    assert!(store.insert(3, node(30)).is_none());
    assert!(store.insert(4, node(40)).is_none());
    assert_eq!(store.len(), 3);
    let mut order: Vec<(u64, u32)> = Vec::new();
    while let Some((key, node)) = store.pop_front() {
        order.push((key, node.into_value()));
    }
    assert_eq!(order, vec![(5, 50), (3, 30), (4, 40)]);
    assert!(store.is_empty());
    assert!(store.pop_front().is_none());
}

#[test]
fn store_insert_on_a_present_key_returns_the_node_and_moves_it_last() {
    let mut store: OrderedStore<u32> = OrderedStore::new(RandomState::new());
    store.insert(1, node(10));
    store.insert(2, node(20));
    store.insert(3, node(30));
    let previous = store.insert(1, node(11));
    assert_eq!(previous.map(|n| n.into_value()), Some(10));
    assert_eq!(store.len(), 3);
    let mut order: Vec<(u64, u32)> = Vec::new();
    while let Some((key, node)) = store.pop_front() {
        order.push((key, node.into_value()));
    }
    assert_eq!(order, vec![(2, 20), (3, 30), (1, 11)]);
}

#[test]
fn store_remove_keeps_the_others_in_order() {
    let mut store: OrderedStore<u32> = OrderedStore::new(RandomState::new());
    for key in 0..6u64 {
        store.insert(key, node(key as u32 * 10));
    }
    assert_eq!(store.remove(2).map(|n| n.into_value()), Some(20));
    assert!(store.remove(2).is_none());
    assert_eq!(store.remove(0).map(|n| n.into_value()), Some(0));
    assert_eq!(store.remove(5).map(|n| n.into_value()), Some(50));
    assert!(!store.contains_key(2));
    assert!(store.contains_key(4));
    assert_eq!(store.get(4).map(|n| *n.value()), Some(40));
    assert_eq!(store.get(1).map(|n| *n.value()), Some(10));
    assert_eq!(store.get(3).map(|n| *n.value()), Some(30));
    assert!(store.get(2).is_none());
    let mut order: Vec<(u64, u32)> = Vec::new();
    while let Some((key, node)) = store.pop_front() {
        order.push((key, node.into_value()));
    }
    assert_eq!(order, vec![(1, 10), (3, 30), (4, 40)]);
}

#[test]
fn store_get_mut_changes_one_node_and_no_place() {
    let mut store: OrderedStore<u32> = OrderedStore::new(RandomState::new());
    store.insert(1, node(10));
    store.insert(2, node(20));
    match store.get_mut(1) {
        Some(n) => *n.value_mut() = 12,
        None => panic!("the key was just inserted"),
    }
    assert!(store.get_mut(7).is_none());
    let mut order: Vec<(u64, u32)> = Vec::new();
    while let Some((key, node)) = store.pop_front() {
        order.push((key, node.into_value()));
    }
    assert_eq!(order, vec![(1, 12), (2, 20)]);
}

#[test]
fn store_clear_leaves_nothing() {
    let mut store: OrderedStore<u32> = OrderedStore::new(RandomState::new());
    store.insert(1, node(10));
    store.insert(2, node(20));
    store.clear();
    assert_eq!(store.len(), 0);
    assert!(!store.contains_key(1));
    assert!(store.pop_front().is_none());
    store.insert(2, node(21));
    assert_eq!(store.get(2).map(|n| *n.value()), Some(21));
}

#[test]
fn store_survives_many_mixed_operations() {
    let mut store: OrderedStore<u32> = OrderedStore::new(RandomState::new());
    let mut expected: Vec<(u64, u32)> = Vec::new();
    let mut seed: u64 = 12345;
    for step in 0..2000u32 {
        seed = seed.wrapping_mul(6364136223846793005).wrapping_add(1442695040888963407);
        let key = (seed >> 33) % 23;
        match (seed >> 20) % 4 {
            0 | 1 => {
                let before = store.insert(key, node(step)).map(|n| n.into_value());
                let place = expected.iter().position(|e| e.0 == key);
                assert_eq!(before, place.map(|p| expected[p].1));
                if let Some(p) = place {
                    expected.remove(p);
                }
                expected.push((key, step));
            },
            2 => {
                let removed = store.remove(key).map(|n| n.into_value());
                let place = expected.iter().position(|e| e.0 == key);
                assert_eq!(removed, place.map(|p| expected[p].1));
                if let Some(p) = place {
                    expected.remove(p);
                }
            },
            _ => {
                let front = store.pop_front().map(|(k, n)| (k, n.into_value()));
                if expected.is_empty() {
                    assert_eq!(front, None);
                } else {
                    assert_eq!(front, Some(expected.remove(0)));
                }
            },
        }
        assert_eq!(store.len(), expected.len());
        for entry in expected.iter() {
            assert_eq!(store.get(entry.0).map(|n| *n.value()), Some(entry.1));
        }
    }
}
