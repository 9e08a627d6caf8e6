use memory::orchestration::search_coordinator::{
    adaptive_ttl_secs, expanded_top_k, popular_queries, rerank_pick, Layer, QueryCache, SearchMetrics,
};

#[test]
fn cache_lifetimes_depend_on_layer_and_size() {
    assert_eq!(adaptive_ttl_secs(Layer::Interact, 3), 360);
    assert_eq!(adaptive_ttl_secs(Layer::Insights, 10), 900);
    assert_eq!(adaptive_ttl_secs(Layer::Assets, 50), 1800);
}

#[test]
fn reranking_asks_for_three_times_as_many() {
    assert_eq!(expanded_top_k(10), 30);
    assert_eq!(expanded_top_k(40), 100);
    assert_eq!(rerank_pick(&vec![4, 9, 1, 0], 3, 5), vec![4, 1]);
    assert_eq!(rerank_pick(&vec![2], 3, 5), vec![2]);
    assert_eq!(popular_queries().len(), 5);
}

#[test]
fn cache_hits_misses_and_expiry() {
    let mut cache: QueryCache<u32> = QueryCache::new(10);
    assert!(!cache.lookup("q", 0));
    cache.cache_result("q", 7, 3, Layer::Interact, 1_000);
    assert_eq!(cache.get("q"), Some(&7));
    assert!(cache.lookup("q", 1_000 + 359_999));
    assert!(!cache.lookup("q", 1_000 + 360_000));
    assert_eq!(cache.len(), 0);
    assert_eq!(cache.hit_stats(), (1, 2));
}

#[test]
fn full_cache_drops_its_oldest_tenth() {
    let mut cache: QueryCache<u32> = QueryCache::new(10);
    for i in 0..10u32 {
        cache.cache_result(&format!("k{i}"), i, 30, Layer::Assets, 0);
    }
    assert_eq!(cache.len(), 10);
    cache.cache_result("new", 99, 30, Layer::Assets, 0);
    assert_eq!(cache.len(), 10);
    assert_eq!(cache.get("k0"), None);
    assert_eq!(cache.get("k1"), Some(&1));
    assert_eq!(cache.get("new"), Some(&99));
}

#[test]
fn cleanup_removes_expired_and_low_value_entries() {
    let mut cache: QueryCache<u32> = QueryCache::new(4);
    cache.cache_result("old", 1, 1, Layer::Interact, 0);
    cache.cache_result("keep", 2, 30, Layer::Assets, 0);
    cache.cleanup_expired(400_000);
    assert_eq!(cache.get("old"), None);
    assert_eq!(cache.get("keep"), Some(&2));
    cache.cache_result("a", 3, 1, Layer::Interact, 400_000);
    cache.cache_result("b", 4, 50, Layer::Assets, 400_000);
    cache.cache_result("c", 5, 40, Layer::Assets, 400_000);
    assert_eq!(cache.len(), 4);
    cache.adaptive_cleanup(400_000);
    assert_eq!(cache.len(), 3);
    assert_eq!(cache.get("a"), None);
}

#[test]
fn search_metrics_keep_moving_averages() {
    let mut m = SearchMetrics::new();
    m.record_search(100, 0, true);
    assert_eq!(m.avg_search_latency_ms, 100);
    assert_eq!(m.avg_embedding_latency_ms, 0);
    m.record_search(200, 50, false);
    assert_eq!(m.avg_search_latency_ms, 110);
    assert_eq!(m.avg_embedding_latency_ms, 50);
    assert_eq!(m.total_searches, 2);
    assert_eq!(m.failed_searches, 1);
}

#[test]
fn small_caches_drop_nothing_when_full() {
    let mut cache: QueryCache<u32> = QueryCache::new(2);
    cache.cache_result("a", 1, 1, Layer::Interact, 0);
    cache.cache_result("b", 2, 1, Layer::Interact, 0);
    cache.cache_result("c", 3, 1, Layer::Interact, 0);
    assert_eq!(cache.len(), 3);
    assert_eq!(cache.max_size(), 2);
    cache.cache_result("c", 4, 1, Layer::Interact, 0);
    assert_eq!(cache.get("c"), Some(&4));
}

#[test]
fn cache_analytics_count_layers() {
    let mut cache: QueryCache<u32> = QueryCache::new(10);
    cache.cache_result("a", 1, 1, Layer::Interact, 0);
    cache.cache_result("b", 2, 1, Layer::Assets, 0);
    cache.cache_result("c", 3, 1, Layer::Assets, 0);
    assert_eq!(cache.layer_distribution(), (1, 0, 2));
}
