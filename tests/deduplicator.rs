use rust_engine::Deduplicator;

#[test]
fn test_deduplicator() {
    let mut dedup = Deduplicator::new(false);

    assert!(!dedup.check_and_add("key1".to_string(), false));
    assert!(dedup.check_and_add("key1".to_string(), false)); // Duplicate
    assert!(!dedup.check_and_add("key2".to_string(), false));

    assert_eq!(dedup.get_cache_size(), 2);
}

#[test]
fn test_batch_check() {
    let mut dedup = Deduplicator::new(false);

    let keys = vec![
        "key1".to_string(),
        "key2".to_string(),
        "key1".to_string(), // Duplicate
    ];

    let results = dedup.check_batch(keys);
    assert_eq!(results, vec![false, false, true]);
}

#[test]
fn capacity_follows_mode_at_construction() {
    assert_eq!(Deduplicator::new(true).get_max_size(), 5000);
    assert_eq!(Deduplicator::new(false).get_max_size(), 20000);
}

#[test]
fn first_add_is_new_second_is_duplicate() {
    let mut dedup = Deduplicator::new(true);
    assert!(!dedup.check_and_add("k".to_string(), true));
    assert!(dedup.check_and_add("k".to_string(), true));
    assert_eq!(dedup.get_cache_size(), 1);
}

#[test]
fn batch_skips_already_held_keys() {
    let mut dedup = Deduplicator::new(false);
    assert!(!dedup.check_and_add("a".to_string(), false));
    let results = dedup.check_batch(vec!["b".to_string(), "a".to_string(), "b".to_string()]);
    assert_eq!(results, vec![false, true, true]);
    assert_eq!(dedup.get_cache_size(), 2);
    let stats = dedup.get_stats();
    assert!(stats.is_duplicate);
    assert_eq!(stats.total_checked, 4);
    assert_eq!(stats.duplicates_found, 2);
}

#[test]
fn empty_batch_changes_nothing() {
    let mut dedup = Deduplicator::new(false);
    assert_eq!(dedup.check_batch(Vec::new()), Vec::<bool>::new());
    assert_eq!(dedup.get_cache_size(), 0);
    let stats = dedup.get_stats();
    assert!(!stats.is_duplicate);
    assert_eq!(stats.total_checked, 0);
}

#[test]
fn normal_eviction_keeps_half_plus_new_key() {
    let mut dedup = Deduplicator::new(false);
    for i in 0..20000 {
        assert!(!dedup.check_and_add(format!("k{}", i), false));
    }
    assert_eq!(dedup.get_cache_size(), 20000);
    assert!(!dedup.check_and_add("fresh".to_string(), false));
    assert_eq!(dedup.get_cache_size(), 10001);
    assert!(dedup.check_and_add("fresh".to_string(), false));
}

#[test]
fn lightweight_eviction_keeps_quarter_plus_new_key() {
    let mut dedup = Deduplicator::new(true);
    for i in 0..5000 {
        assert!(!dedup.check_and_add(format!("k{}", i), true));
    }
    assert!(!dedup.check_and_add("fresh".to_string(), true));
    assert_eq!(dedup.get_cache_size(), 1251);
}

#[test]
fn batch_may_exceed_capacity_until_next_single_add() {
    let mut dedup = Deduplicator::new(true);
    let keys: Vec<String> = (0..5003).map(|i| format!("k{}", i)).collect();
    let results = dedup.check_batch(keys);
    assert!(results.iter().all(|d| !*d));
    assert_eq!(dedup.get_cache_size(), 5003);
    assert!(!dedup.check_and_add("fresh".to_string(), false));
    assert_eq!(dedup.get_cache_size(), 2501);
}

#[test]
fn single_adds_never_exceed_capacity() {
    let mut dedup = Deduplicator::new(true);
    for i in 0..12000 {
        dedup.check_and_add(format!("k{}", i % 7000), i % 2 == 0);
        assert!(dedup.get_cache_size() as usize <= dedup.get_max_size());
    }
}

#[test]
fn clear_resets_keys_and_counters() {
    let mut dedup = Deduplicator::new(false);
    dedup.check_and_add("a".to_string(), false);
    dedup.check_and_add("a".to_string(), false);
    dedup.clear();
    assert_eq!(dedup.get_cache_size(), 0);
    let stats = dedup.get_stats();
    assert!(!stats.is_duplicate);
    assert_eq!(stats.total_checked, 0);
    assert_eq!(stats.duplicates_found, 0);
    assert!(!dedup.check_and_add("a".to_string(), false));
    assert_eq!(dedup.get_max_size(), 20000);
}
