use sylt_2d::arbiter::ArbiterKey;
use sylt_2d::body::BodyIdAllocator;
use sylt_2d::world::{ArbiterCache, WorldContext};

#[test]
fn world_context_defaults() {
    let context = WorldContext::default();
    assert!(context.accumulate_impulse);
    assert!(!context.warm_starting);
    assert!(context.position_correction);
}

#[test]
fn cache_insert_and_get() {
    let mut cache: ArbiterCache<u32> = ArbiterCache::new();
    assert_eq!(cache.len(), 0);
    let key = ArbiterKey::new(1, 2);
    cache.insert(key, 10);
    assert_eq!(cache.len(), 1);
    assert_eq!(cache.get(&key), Some(&10));
    assert_eq!(cache.get(&ArbiterKey::new(2, 1)), Some(&10));
    assert_eq!(cache.get(&ArbiterKey::new(1, 3)), None);
}

#[test]
fn cache_insert_replaces_existing_entry() {
    let mut cache: ArbiterCache<u32> = ArbiterCache::new();
    let key = ArbiterKey::new(1, 2);
    cache.insert(key, 10);
    cache.insert(ArbiterKey::new(2, 1), 20);
    assert_eq!(cache.len(), 1);
    assert_eq!(cache.get(&key), Some(&20));
}

#[test]
fn cache_keeps_insertion_order() {
    let mut cache: ArbiterCache<u32> = ArbiterCache::new();
    let k12 = ArbiterKey::new(1, 2);
    let k13 = ArbiterKey::new(1, 3);
    let k23 = ArbiterKey::new(2, 3);
    cache.insert(k12, 1);
    cache.insert(k13, 2);
    cache.insert(k23, 3);
    cache.insert(k13, 20);
    assert_eq!(cache.key_at(0), k12);
    assert_eq!(cache.key_at(1), k13);
    assert_eq!(cache.key_at(2), k23);
    assert_eq!(*cache.value_at(1), 20);
    assert_eq!(cache.index_of(&k23), Some(2));
    cache.remove(&k12);
    assert_eq!(cache.key_at(0), k13);
    assert_eq!(cache.key_at(1), k23);
    assert_eq!(*cache.value_at(0), 20);
    assert_eq!(*cache.value_at(1), 3);
}

#[test]
fn cache_replace_value_at_returns_old_entry() {
    let mut cache: ArbiterCache<u32> = ArbiterCache::new();
    let key = ArbiterKey::new(4, 2);
    cache.insert(key, 7);
    let prev = cache.replace_value_at(0, 9);
    assert_eq!(prev, 7);
    assert_eq!(cache.get(&key), Some(&9));
}

#[test]
fn arbiter_lifecycle_discards_removed_state() {
    // a frame with overlap caches the pair, a frame without contact drops
    // it, and a later pairing of the same bodies starts from the new entry
    let mut cache: ArbiterCache<u32> = ArbiterCache::new();
    let key = ArbiterKey::new(1, 2);
    cache.insert(key, 42);
    assert_eq!(cache.get(&key), Some(&42));
    cache.remove(&key);
    assert_eq!(cache.get(&key), None);
    assert_eq!(cache.len(), 0);
    cache.insert(key, 1);
    assert_eq!(cache.get(&key), Some(&1));
}

#[test]
fn cache_remove_of_absent_key_is_a_no_op() {
    let mut cache: ArbiterCache<u32> = ArbiterCache::new();
    cache.insert(ArbiterKey::new(1, 2), 5);
    cache.remove(&ArbiterKey::new(3, 4));
    assert_eq!(cache.len(), 1);
    assert_eq!(cache.get(&ArbiterKey::new(1, 2)), Some(&5));
}

#[test]
fn body_ids_are_monotonic_and_unique() {
    let mut ids = BodyIdAllocator::new();
    let a = ids.allocate();
    let b = ids.allocate();
    let c = ids.allocate();
    assert_eq!(a, 1);
    assert_eq!(b, 2);
    assert_eq!(c, 3);
    assert!(a < b && b < c);
}
