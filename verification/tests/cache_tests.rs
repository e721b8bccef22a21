use performance_utils::cache::HighPerformanceCache;

#[test]
fn test_cache_performance() {
    let mut cache = HighPerformanceCache::new(3);

    cache.put("key1".to_string(), "value1".to_string());
    cache.put("key2".to_string(), "value2".to_string());

    assert_eq!(cache.get(&"key1".to_string()), Some("value1".to_string()));
    assert_eq!(cache.get(&"key3".to_string()), None);
}

#[test]
fn capacity_never_exceeded() {
    let mut cache = HighPerformanceCache::new(2);
    let keys = ["k1", "k2", "k3", "k4", "k5"];
    for (i, k) in keys.iter().enumerate() {
        cache.put(k.to_string(), i as u32);
        assert!(cache.size() <= cache.capacity());
    }
    assert_eq!(cache.size(), 2);
    assert_eq!(cache.capacity(), 2);
}

#[test]
fn refreshed_key_survives_eviction() {
    let mut cache = HighPerformanceCache::new(3);
    cache.put("A".to_string(), 1u32);
    cache.put("B".to_string(), 2u32);
    cache.put("C".to_string(), 3u32);
    // refresh A: the least recently used key is now B
    assert_eq!(cache.get(&"A".to_string()), Some(1));
    cache.put("D".to_string(), 4u32);
    // B was evicted, A survived
    assert_eq!(cache.get(&"B".to_string()), None);
    assert_eq!(cache.get(&"A".to_string()), Some(1));
    assert_eq!(cache.get(&"C".to_string()), Some(3));
    assert_eq!(cache.get(&"D".to_string()), Some(4));
}

#[test]
fn hit_and_miss_accounting() {
    let mut cache = HighPerformanceCache::new(4);
    assert_eq!(cache.hit_rate(), (0, 0));
    cache.put("x".to_string(), 1u8);
    assert_eq!(cache.get(&"x".to_string()), Some(1)); // hit
    assert_eq!(cache.get(&"y".to_string()), None); // miss
    assert_eq!(cache.get(&"z".to_string()), None); // miss
    assert_eq!(cache.get(&"x".to_string()), Some(1)); // hit
    // 2 hits out of 4 lookups
    assert_eq!(cache.hit_rate(), (2, 4));
}

#[test]
fn example_scenario() {
    let mut cache = HighPerformanceCache::new(2);
    cache.put("a".to_string(), 1i64);
    cache.put("b".to_string(), 2i64);
    cache.put("c".to_string(), 3i64);
    // "a" was the least recently used entry and got evicted
    assert_eq!(cache.get(&"a".to_string()), None);
    assert_eq!(cache.hit_rate(), (0, 1));
    assert_eq!(cache.get(&"b".to_string()), Some(2));
    // one hit out of two lookups: a rate of one half
    assert_eq!(cache.hit_rate(), (1, 2));
    assert_eq!(cache.get(&"c".to_string()), Some(3));
    assert_eq!(cache.size(), 2);
}

#[test]
fn duplicate_put_updates_in_place() {
    let mut cache = HighPerformanceCache::new(2);
    cache.put("a".to_string(), 1u32);
    cache.put("b".to_string(), 2u32);
    // re-putting "a" must refresh it, not grow the cache or evict anything
    cache.put("a".to_string(), 10u32);
    assert_eq!(cache.size(), 2);
    assert_eq!(cache.get(&"a".to_string()), Some(10));
    assert_eq!(cache.get(&"b".to_string()), Some(2));
    // after the refresh of "a", inserting a third key evicts "b"... but the
    // two gets above refreshed "b" last, so "a" is now the oldest
    cache.put("c".to_string(), 3u32);
    assert_eq!(cache.get(&"a".to_string()), None);
    assert_eq!(cache.get(&"b".to_string()), Some(2));
}
