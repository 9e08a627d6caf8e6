use memory::orchestration::circuit_breaker_manager::{CircuitBreakerConfig, CircuitBreakerManager, CircuitBreakerStatus};
use memory::orchestration::embedding_coordinator::{
    batch_fallback_dimension, fallback_dimension, fill_missing, warmup_texts, AdaptiveBatchConfig,
};
use memory::orchestration::memory_orchestrator::{drain_wait_step, Gate, MemoryOrchestrator};
use memory::orchestration::operation_executor::{admit_operation, settle_operation, Admission, RetryHandlers};
use memory::orchestration::retry_handler::RetryResult;

#[test]
fn gates_refuse_until_ready_and_while_open() {
    let mut o = MemoryOrchestrator::new(0);
    assert_eq!(o.operation_gate("search", 1), Gate::NotReady);
    o.finish_initialization(1);
    assert!(o.is_ready());
    assert_eq!(o.operation_gate("search", 2), Gate::Proceed);
    for _ in 0..5 {
        o.record_outcome("search", false, 3);
    }
    assert_eq!(o.operation_gate("search", 4), Gate::Blocked);
    assert_eq!(o.metrics().failed_operations, 1);
    assert_eq!(o.operation_gate("search", 3 + 10_000), Gate::Proceed);
    let states = o.circuit_breaker_states();
    assert_eq!(states.len(), 6);
    assert_eq!(states[1], ("search".to_string(), "half_open"));
    o.reset_circuit_breakers();
    assert_eq!(o.circuit_breaker_states()[1].1, "closed");
}

#[test]
fn shutdown_waits_for_permits() {
    assert_eq!(drain_wait_step(0, 99), Some(500));
    assert_eq!(drain_wait_step(0, 100), None);
    assert_eq!(drain_wait_step(30_000, 3), None);
}

#[test]
fn batch_size_adapts_to_latency() {
    let mut c = AdaptiveBatchConfig::new(0);
    c.adjust_batch_size(500, 1_000);
    assert_eq!(c.current_size, 32);
    c.adjust_batch_size(500, 6_000);
    assert_eq!(c.current_size, 25);
    assert_eq!(c.last_adjustment_ms, 6_000);
    let mut fast = AdaptiveBatchConfig::new(0);
    fast.adjust_batch_size(10, 5_000);
    assert_eq!(fast.current_size, 38);
    for t in 0..12u64 {
        fast.adjust_batch_size(100, 5_000 + t);
    }
    assert_eq!(fast.recent_latencies.len(), 10);
}

#[test]
fn missing_embeddings_are_filled_in_order() {
    let slots = vec![Some(1), None, Some(3), None];
    assert_eq!(fill_missing(slots, vec![20, 40, 99]), vec![1, 20, 3, 40]);
    assert_eq!(fallback_dimension(), 1024);
    assert_eq!(batch_fallback_dimension(), 768);
    assert!(!warmup_texts().is_empty());
}

#[test]
fn operations_are_admitted_and_settled() {
    let mut breakers = CircuitBreakerManager::with_config(CircuitBreakerConfig { failure_threshold: 1, recovery_timeout_ms: 1_000 });
    assert!(matches!(admit_operation(&mut breakers, "search", true, 0), Admission::Proceed));
    match admit_operation(&mut breakers, "search", false, 0) {
        Admission::InsufficientResources(m) => assert_eq!(m, "Недостаточно ресурсов для search"),
        other => panic!("unexpected {other:?}"),
    }
    let ok = settle_operation(&mut breakers, "search", RetryResult::Success(7u32, 2), 15, 1).unwrap();
    assert_eq!(ok.0, 7);
    assert_eq!(ok.1.retry_attempts, 2);
    assert_eq!(ok.1.duration_ms, 15);
    let err = settle_operation::<u32>(&mut breakers, "search", RetryResult::NonRetriable(anyhow::Error::msg("bad input")), 3, 2);
    assert_eq!(err.err(), Some("search failed: bad input".to_string()));
    assert_eq!(breakers.get_status("search"), Some(CircuitBreakerStatus::Open));
    match admit_operation(&mut breakers, "search", true, 500) {
        Admission::CircuitOpen(m) => assert_eq!(m, "search временно недоступен (circuit breaker открыт)"),
        other => panic!("unexpected {other:?}"),
    }
    let handlers = RetryHandlers::default();
    assert!(handlers.search.policy.max_attempts >= 1);
}

#[test]
fn metrics_ticks_count_open_breakers() {
    let mut o = MemoryOrchestrator::new(0);
    for _ in 0..5 {
        o.record_outcome("search", false, 3);
    }
    o.trips_tick();
    o.trips_tick();
    let trips = &o.metrics().circuit_breaker_trips;
    assert_eq!(trips.len(), 6);
    for (name, count) in trips.iter() {
        let expected = if name == "search" { 2 } else { 0 };
        assert_eq!(*count, expected, "{}", name);
    }
    o.uptime_tick();
    assert_eq!(o.metrics().uptime_seconds, 30);
    assert!(!o.is_emergency_shutdown());
    o.emergency_shutdown();
    assert!(o.is_emergency_shutdown());
}

#[test]
fn the_full_report_shows_counters_and_breakers() {
    let mut o = MemoryOrchestrator::new(0);
    o.finish_initialization(0);
    o.search_finished(true, 4, 2, 1_000);
    o.search_finished(false, 9, 2, 2_000);
    let r = o.all_metrics_report([true, true, false, true, true, true], 3, 4_000);
    assert!(r.ready);
    assert_eq!(r.uptime_seconds, 4);
    assert_eq!(r.total_operations, 2);
    assert_eq!(r.successful_operations, 1);
    assert_eq!(r.success_rate, 5000);
    assert_eq!(r.avg_operation_duration_ms, 2);
    assert_eq!(r.current_concurrent, 3);
    assert_eq!(r.circuit_breakers.len(), 6);
    assert_eq!(r.circuit_breakers[1].name, "search");
    assert_eq!(r.circuit_breakers[1].failure_count, 1);
    assert_eq!(r.circuit_breakers[1].last_failure_secs_ago, Some(2));
    assert_eq!(r.uptime_percentage, 10000);
    assert_eq!(r.coordinator_ready[2], false);
}
