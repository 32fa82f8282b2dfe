use solana_block_monitor::cache::{BlockCache, BUCKET_SIZE, MAX_CACHE_CAPACITY};

#[test]
fn test_cache_basic_operations() {
    let mut cache = BlockCache::new(3);

    assert!(cache.is_empty());
    assert_eq!(cache.len(), 0);

    assert!(cache.insert(1));
    assert!(cache.insert(2));
    assert!(cache.insert(3));

    assert!(cache.contains(1));
    assert!(cache.contains(2));
    assert!(cache.contains(3));
    assert!(!cache.contains(4));

    assert_eq!(cache.len(), 3);
    assert!(!cache.is_empty());
}

#[test]
fn test_cache_capacity() {
    let mut cache = BlockCache::new(1000);
    assert_eq!(cache.capacity(), 1024);

    cache.insert(1);
    cache.insert(2);
    cache.insert(3);

    assert_eq!(cache.len(), 3);
}

#[test]
fn test_cache_clear() {
    let mut cache = BlockCache::new(5);

    cache.insert(1);
    cache.insert(2);
    assert_eq!(cache.len(), 2);

    cache.clear();
    assert!(cache.is_empty());
    assert_eq!(cache.len(), 0);
}

#[test]
fn test_lru_behavior() {
    let mut cache = BlockCache::new(2);

    cache.insert(1);
    cache.insert(2);

    cache.contains(1);

    cache.insert(3);

    assert!(cache.contains(1));
    assert!(cache.contains(3));
}

#[test]
fn insert_of_a_cached_slot_reports_false_and_changes_nothing() {
    let mut cache = BlockCache::new(16);
    assert!(cache.insert(7));
    assert!(!cache.insert(7));
    assert!(cache.contains(7));
    assert_eq!(cache.len(), 1);
}

#[test]
fn default_cache_is_empty() {
    let cache = BlockCache::default();
    assert!(cache.is_empty());
    assert_eq!(cache.len(), 0);
    assert!(!cache.contains(0));
}

#[test]
fn len_never_exceeds_capacity() {
    let mut cache = BlockCache::new(64);
    for slot in 0..5000u64 {
        cache.insert(slot);
        assert!(cache.len() <= cache.capacity());
        assert!(cache.contains(slot));
    }
    assert!(cache.len() < 5000);
}

#[test]
fn insert_adds_one_slot_and_puts_out_at_most_one() {
    let mut cache = BlockCache::new(64);
    for slot in 0..3000u64 {
        let before = cache.len();
        let inserted = cache.insert(slot);
        assert!(inserted);
        let after = cache.len();
        assert!(after == before + 1 || after == before);
    }
}

#[test]
fn clear_forgets_every_slot() {
    let mut cache = BlockCache::new(8);
    for slot in 10..20u64 {
        cache.insert(slot);
    }
    cache.clear();
    for slot in 10..20u64 {
        assert!(!cache.contains(slot));
    }
    assert!(cache.insert(10));
}

#[test]
fn capacity_is_fixed_when_the_cache_is_made() {
    let mut cache = BlockCache::new(1000);
    assert_eq!(cache.capacity(), 1024);
    cache.contains(5);
    assert_eq!(cache.capacity(), 1024);
    for slot in 0..20_000u64 {
        cache.insert(slot);
    }
    assert_eq!(cache.capacity(), 1024);
    assert!(cache.len() <= 1024);
    assert!(cache.contains(19_999));
    cache.clear();
    assert_eq!(cache.capacity(), 1024);
    cache.insert(1);
    assert_eq!(cache.capacity(), 1024);
}

#[test]
fn capacity_is_the_next_power_of_two_from_64_on() {
    assert!(MAX_CACHE_CAPACITY >= 1 << 20);
    assert_eq!(BlockCache::new(0).capacity(), 64);
    assert_eq!(BlockCache::new(1).capacity(), 64);
    assert_eq!(BlockCache::new(3).capacity(), 64);
    assert_eq!(BlockCache::new(64).capacity(), 64);
    assert_eq!(BlockCache::new(65).capacity(), 128);
    assert_eq!(BlockCache::new(128).capacity(), 128);
    assert_eq!(BlockCache::new(1024).capacity(), 1024);
    assert_eq!(BlockCache::new(1025).capacity(), 2048);
    assert_eq!(BlockCache::default().capacity(), 1024);
    for asked in [0usize, 5, 50, 500, 5000, 50_000] {
        assert!(BlockCache::new(asked).capacity() >= asked);
    }
}

#[test]
fn cache_made_for_no_slot_keeps_its_capacity() {
    let mut cache = BlockCache::new(0);
    assert_eq!(cache.capacity(), 64);
    assert!(cache.insert(1));
    assert_eq!(cache.capacity(), 64);
    cache.clear();
    assert!(cache.is_empty());
    assert_eq!(cache.capacity(), 64);
}

#[test]
fn nothing_is_put_out_of_a_cache_of_fewer_slots_than_a_bucket_holds() {
    assert_eq!(BUCKET_SIZE, 32);
    for capacity in [0usize, 3, 64, 1000] {
        let mut cache = BlockCache::new(capacity);
        for slot in 0..BUCKET_SIZE as u64 {
            assert!(cache.insert(slot * 7919));
            assert_eq!(cache.len() as u64, slot + 1);
        }
        for slot in 0..BUCKET_SIZE as u64 {
            assert!(cache.contains(slot * 7919));
        }
    }
}

#[test]
fn full_cache_puts_slots_out() {
    let mut cache = BlockCache::new(64);
    for slot in 0..64u64 {
        cache.insert(slot);
    }
    let before = cache.len();
    assert!(before >= BUCKET_SIZE);
    for slot in 64..10_000u64 {
        assert!(cache.insert(slot));
        assert!(cache.contains(slot));
    }
    assert!(cache.len() <= 64);
    let kept = (0..10_000u64).filter(|slot| cache.contains(*slot)).count();
    assert_eq!(kept, cache.len());
}
