use net_state::cache::LruCache;
use net_state::fanout::{fan_out, floor_sqrt};
use net_state::primitives::H256;

fn hash(n: u128) -> H256 {
    H256 { hi: 0, lo: n }
}

#[test]
fn empty_cache_holds_nothing() {
    let cache = LruCache::new(512);
    assert!(cache.is_empty());
    assert_eq!(cache.len(), 0);
    assert_eq!(cache.limit(), 512);
    assert!(!cache.contains(&hash(1)));
}

#[test]
fn insert_reports_fresh_hashes() {
    let mut cache = LruCache::new(4);
    assert!(cache.insert(hash(1)));
    assert!(cache.contains(&hash(1)));
    assert!(!cache.insert(hash(1)));
    assert_eq!(cache.len(), 1);
}

#[test]
fn cache_never_exceeds_its_limit() {
    let mut cache = LruCache::new(512);
    for n in 0..2000u128 {
        cache.insert(hash(n));
        assert!(cache.len() <= 512);
    }
    assert_eq!(cache.len(), 512);
}

#[test]
fn the_513th_hash_evicts_the_first() {
    let mut cache = LruCache::new(512);
    for n in 0..512u128 {
        assert!(cache.insert(hash(n)));
    }
    assert_eq!(cache.len(), 512);
    assert!(cache.contains(&hash(0)));
    assert!(cache.insert(hash(512)));
    assert_eq!(cache.len(), 512);
    assert!(!cache.contains(&hash(0)));
    for n in 1..=512u128 {
        assert!(cache.contains(&hash(n)));
    }
}

#[test]
fn offering_a_held_hash_again_keeps_the_order_of_eviction() {
    let mut cache = LruCache::new(2);
    cache.insert(hash(1));
    cache.insert(hash(2));
    assert!(!cache.insert(hash(1)));
    cache.insert(hash(3));
    assert!(!cache.contains(&hash(1)));
    assert!(cache.contains(&hash(2)));
    assert!(cache.contains(&hash(3)));
}

#[test]
fn extend_inserts_in_order() {
    let mut cache = LruCache::new(3);
    cache.extend(&vec![hash(1), hash(2), hash(2), hash(3), hash(4)]);
    assert_eq!(cache.len(), 3);
    assert!(!cache.contains(&hash(1)));
    assert!(cache.contains(&hash(2)));
    assert!(cache.contains(&hash(3)));
    assert!(cache.contains(&hash(4)));
}

#[test]
fn floor_sqrt_values() {
    assert_eq!(floor_sqrt(0), 0);
    assert_eq!(floor_sqrt(1), 1);
    assert_eq!(floor_sqrt(2), 1);
    assert_eq!(floor_sqrt(3), 1);
    assert_eq!(floor_sqrt(4), 2);
    assert_eq!(floor_sqrt(8), 2);
    assert_eq!(floor_sqrt(9), 3);
    assert_eq!(floor_sqrt(15), 3);
    assert_eq!(floor_sqrt(16), 4);
    assert_eq!(floor_sqrt(99), 9);
    assert_eq!(floor_sqrt(100), 10);
    assert_eq!(floor_sqrt(1_000_000), 1000);
}

#[test]
fn floor_sqrt_agrees_with_floating_point() {
    for n in 0..5000usize {
        assert_eq!(floor_sqrt(n) as u64, (n as f64).sqrt() as u64);
    }
}

#[test]
fn fan_out_values() {
    assert_eq!(fan_out(0), 1);
    assert_eq!(fan_out(1), 2);
    assert_eq!(fan_out(3), 2);
    assert_eq!(fan_out(4), 3);
    assert_eq!(fan_out(9), 4);
    assert_eq!(fan_out(15), 4);
    assert_eq!(fan_out(16), 5);
    assert_eq!(fan_out(100), 11);
}
