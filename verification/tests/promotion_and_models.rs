use chrono::{DateTime, Duration, Utc};
use memory::digest::blake3_hex;
use memory::orchestration::background_task_manager::{BackgroundTaskManager, StartOutcome};
use memory::orchestration::search_coordinator::Layer;
use memory::ort_backend::{
    top_ranked, BackendChoice, BackendFactory, MockBackend, MockReranker, OrtV1Backend, RerankScore,
};
use memory::promotion::{
    min_access_count, expiry_cutoff_secs, index_key, promotion_cutoff_secs, promotion_health_check, promotion_target,
    select_candidates, PromotionPerformanceStats, PromotionStats, indices_need_rebuild, index_diverged,
};
use memory::qwen3_bridge::{both_failed_message, BridgeMetrics};
use memory::semantic_with_fallback::{embedding_cache_key, estimate_tokens, RerankerModel, RerankerService};
use memory::service::CacheConfigType;

#[test]
fn test_key_conversion() {
    let datetime_to_key = |dt: DateTime<Utc>| -> [u8; 8] { (dt.timestamp() as u64).to_be_bytes() };
    let score_to_key = |score: f32| -> [u8; 4] { score.to_bits().to_be_bytes() };
    let dt1 = Utc::now();
    let dt2 = dt1 + Duration::hours(1);
    let key1 = datetime_to_key(dt1);
    let key2 = datetime_to_key(dt2);
    assert!(key1 < key2);
    let score1 = 0.5f32;
    let score2 = 0.8f32;
    let score_key1 = score_to_key(score1);
    let score_key2 = score_to_key(score2);
    assert!(score_key1 < score_key2);
}

#[test]
fn index_keys_are_padded_and_ordered() {
    assert_eq!(index_key(0), "00000000000000000000");
    assert_eq!(index_key(42), "00000000000000000042");
    assert_eq!(index_key(u64::MAX), "18446744073709551615");
    let earlier = index_key(1_699_999_999_000_000_000);
    let later = index_key(1_700_000_000_000_000_000);
    assert!(earlier < later);
    assert!(index_key(9) < index_key(10));
}

#[test]
fn promotion_moves_records_up_one_layer() {
    assert_eq!(promotion_target(Layer::Interact), Some(Layer::Insights));
    assert_eq!(promotion_target(Layer::Insights), Some(Layer::Assets));
    assert_eq!(promotion_target(Layer::Assets), None);
    assert_eq!(min_access_count(Layer::Interact), Some(2));
    assert_eq!(min_access_count(Layer::Insights), Some(5));
    assert_eq!(min_access_count(Layer::Assets), None);
    assert_eq!(promotion_cutoff_secs(Layer::Interact, 100_000, 24, 7), Some(100_000 - 86_400));
    assert_eq!(promotion_cutoff_secs(Layer::Insights, 1_000_000, 24, 7), Some(1_000_000 - 604_800));
    assert_eq!(promotion_cutoff_secs(Layer::Assets, 1_000_000, 24, 7), None);
    assert_eq!(expiry_cutoff_secs(Layer::Interact, 200_000, 24, 7), Some(200_000 - 172_800));
    assert_eq!(expiry_cutoff_secs(Layer::Assets, 200_000, 24, 7), None);
}

#[test]
fn every_candidate_with_enough_accesses_is_promoted() {
    // Three entries pass the score filter and were accessed at least twice: all three go.
    let entries = vec![(true, 2), (true, 7), (false, 9), (true, 1), (true, 3)];
    assert_eq!(select_candidates(&entries, 2), vec![0, 1, 4]);
    assert_eq!(select_candidates(&entries, 5), vec![1]);
    assert_eq!(select_candidates(&entries, 0), vec![0, 1, 3, 4]);
    assert!(select_candidates(&vec![], 2).is_empty());
}

#[test]
fn promotion_statistics_and_health() {
    let mut stats = PromotionStats::default();
    assert_eq!(stats.total_time_ms, 0);
    assert_eq!(promotion_health_check(true, &stats), Ok(()));
    assert_eq!(promotion_health_check(false, &stats), Err("PromotionCoordinator не готов".to_string()));
    stats.total_time_ms = 12_345;
    assert_eq!(
        promotion_health_check(true, &stats),
        Err("Promotion занимает слишком много времени: 12345ms".to_string())
    );
    let mut perf = PromotionPerformanceStats::default();
    perf.record_layer(Layer::Insights, 7, 3);
    assert_eq!(perf.insights_time_index_size, 7);
    assert_eq!(perf.insights_score_index_size, 3);
    assert_eq!(perf.interact_time_index_size, 0);
}

#[test]
fn test_mock_backend_names_and_dimension() {
    let backend = MockBackend::new();
    assert_eq!(backend.name(), "Mock Backend (no ONNX)");
    assert_eq!(OrtV1Backend::new().name(), "ONNX Runtime v1.16");
    let vectorizer = backend.create_vectorizer();
    assert_eq!(vectorizer.embedding_dim(), 1024);
    let a = vectorizer.feature_bytes("Hello");
    let b = vectorizer.feature_bytes("World");
    assert_eq!(a.len(), 32);
    assert_ne!(a, b);
    assert_eq!(a, blake3::hash(b"Hello").as_bytes().to_vec());
}

#[test]
fn backend_choice_honours_the_override() {
    assert_eq!(BackendFactory::best_available("true", true), BackendChoice::Mock);
    assert_eq!(BackendFactory::best_available("", true), BackendChoice::OrtV1);
    assert_eq!(BackendFactory::best_available("TRUE", false), BackendChoice::Mock);
}

#[test]
fn test_mock_reranker_prefers_shared_words() {
    let reranker = MockBackend::new().create_reranker();
    let docs = vec!["hello world example".to_string(), "goodbye moon".to_string(), "world peace".to_string()];
    let results = reranker.rerank("hello world", &docs, 2);
    assert_eq!(results.len(), 2);
    assert_eq!(results[0].index, 0);
    assert_eq!((results[0].shared, results[0].total), (2, 3));
    assert_eq!(results[1].index, 2);
    assert_eq!((results[1].shared, results[1].total), (1, 3));
}

#[test]
fn reranking_is_case_insensitive_and_stable() {
    let reranker = MockReranker::new();
    let docs = vec!["B a".to_string(), "a b".to_string(), "".to_string(), "A A b".to_string()];
    let r = reranker.rerank("a b", &docs, 10);
    assert_eq!(r.iter().map(|s| s.index).collect::<Vec<_>>(), vec![0, 1, 3, 2]);
    assert_eq!(r[2], RerankScore { index: 3, shared: 2, total: 2 });
    assert_eq!(r[3], RerankScore { index: 2, shared: 0, total: 2 });
    let empty = reranker.rerank("", &vec!["".to_string()], 1);
    assert_eq!(empty, vec![RerankScore { index: 0, shared: 0, total: 0 }]);
    let scores = vec![
        RerankScore { index: 0, shared: 1, total: 4 },
        RerankScore { index: 1, shared: 1, total: 2 },
        RerankScore { index: 2, shared: 2, total: 4 },
    ];
    assert_eq!(top_ranked(&scores, 2).iter().map(|s| s.index).collect::<Vec<_>>(), vec![1, 2]);
}

#[test]
fn cache_keys_use_the_blake3_hex_digest() {
    assert_eq!(
        embedding_cache_key(""),
        "embed:af1349b9f5f9a1a6a0404dea36dcc9499bcb25c9adc112b7cc9a93cae41f3262"
    );
    assert_eq!(blake3_hex(b"abc"), blake3::hash(b"abc").to_hex().to_string());
    assert_eq!(embedding_cache_key("x").len(), 70);
}

#[test]
fn tokens_are_a_quarter_of_the_bytes() {
    assert_eq!(estimate_tokens(&vec!["abcdefgh".to_string(), "abc".to_string(), "привет".to_string()]), 2 + 0 + 3);
    assert_eq!(estimate_tokens(&Vec::new()), 0);
}

#[test]
fn reranker_service_limits_documents() {
    let service = RerankerService::new(false);
    assert_eq!(service.model, RerankerModel::Mock);
    assert_eq!(service.max_documents, 64);
    let docs: Vec<String> = (0..70).map(|i| format!("doc {i}")).collect();
    let kept = service.documents_to_process(&docs);
    assert_eq!(kept.len(), 64);
    assert_eq!(kept[63], "doc 63");
    let hits = service.hits(&vec![(2usize, 0.5f32), (0, 0.25)], &docs);
    assert_eq!(hits[0].document, "doc 2");
    assert_eq!(hits[1].index, 0);
    assert_eq!(hits[1].score, 0.25);
    assert_eq!(RerankerService::new(true).model, RerankerModel::Real);
}

#[test]
fn cache_kind_is_known() {
    let simple: CacheConfigType<u32> = CacheConfigType::Simple;
    assert!(!simple.is_lru());
    assert!(CacheConfigType::Lru(5u32).is_lru());
}

#[test]
fn bridge_metrics_count_provider_and_fallback() {
    let mut m = BridgeMetrics::new();
    m.record_requests(1);
    m.record_provider_success(1, 40);
    assert_eq!((m.avg_latency_total_ms, m.avg_latency_divisor), (40, 1));
    m.record_requests(1);
    m.record_provider_failure(1);
    m.record_fallback_success(1, 20, true);
    assert_eq!(m.total_requests, 2);
    assert_eq!(m.failed_requests, 1);
    assert_eq!(m.fallback_requests, 1);
    assert_eq!(m.total_latency_ms, 60);
    assert_eq!((m.avg_latency_total_ms, m.avg_latency_divisor), (60, 2));
    m.record_fallback_success(3, 10, false);
    assert_eq!((m.avg_latency_total_ms, m.avg_latency_divisor), (60, 2));
    assert_eq!(
        both_failed_message(false, "e1", "e2"),
        "Все embedding методы неудачны: Qwen3: e1, Fallback: e2"
    );
    assert_eq!(
        both_failed_message(true, "e1", "e2"),
        "Все batch embedding методы неудачны: Qwen3: e1, Fallback: e2"
    );
}

#[test]
fn background_tasks_start_once_and_refuse_when_inactive() {
    let mut m = BackgroundTaskManager::new();
    assert!(!m.is_active());
    assert_eq!(m.registered_tasks(), 0);
    assert_eq!(
        m.add_custom_task("test"),
        Err("Background task manager не активен, нельзя добавить задачу 'test'".to_string())
    );
    assert_eq!(m.start_all_tasks(), StartOutcome::Started);
    assert_eq!(m.start_all_tasks(), StartOutcome::AlreadyRunning);
    assert_eq!(m.registered_tasks(), 3);
    assert_eq!(m.add_custom_task("test_custom"), Ok(()));
    assert_eq!(m.registered_tasks(), 4);
    assert!(m.is_ready());
    assert_eq!(m.perform_health_check(), Ok(()));
    m.stop_all_tasks();
    assert!(!m.is_active());
    assert_eq!(m.registered_tasks(), 0);
    assert_eq!(m.health_check(), Err("BackgroundTaskManager не готов".to_string()));
    assert_eq!(m.perform_health_check(), Err("BackgroundTaskManager в процессе остановки".to_string()));
    let mut idle = BackgroundTaskManager::new();
    idle.initialize();
    assert_eq!(idle.perform_health_check(), Err("Нет активных задач при работающем менеджере".to_string()));
}

#[test]
fn indices_are_rebuilt_when_empty_or_far_behind() {
    assert!(indices_need_rebuild(true, false));
    assert!(!indices_need_rebuild(false, false));
    assert!(index_diverged(10, 4));
    assert!(!index_diverged(10, 5));
    assert!(!index_diverged(0, 0));
    assert!(!index_diverged(3, 1));
}
