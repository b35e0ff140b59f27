use openloom::cache::{CachedPrefix, KvCache, NoopCache, SafetensorsCache};

#[test]
fn test_noop_cache_always_miss() {
    let cache = NoopCache;
    assert!(cache.lookup(0).is_none());
}

#[test]
fn test_noop_cache_store_is_noop() {
    let cache = NoopCache;
    let blocks = CachedPrefix { blocks: vec![1, 2, 3], token_count: 10 };
    cache.store(42, blocks);
    assert!(cache.lookup(42).is_none());
}

#[test]
fn safetensors_cache_misses() {
    let cache = SafetensorsCache::new(std::path::PathBuf::from("/tmp/kv"), 8, 64);
    cache.store(1, CachedPrefix { blocks: vec![9], token_count: 1 });
    assert!(cache.lookup(1).is_none());
}
