use memory::orchestration::metrics_collector::{AggregatedStats, CircuitBreakerStatus, MetricsCollector};

#[test]
fn test_metrics_collector_creation() {
    let collector = MetricsCollector::new(100, 0);
    assert!(collector.is_active());
    assert_eq!(collector.max_history_size(), 100);
}

#[test]
fn test_operation_recording() {
    let mut collector = MetricsCollector::new(100, 0);
    collector.record_operation("test_coordinator", 150, true, 10);
    let metrics = collector.orchestration_metrics();
    assert_eq!(metrics.total_operations, 1);
    assert_eq!(metrics.successful_operations, 1);
    assert_eq!(metrics.failed_operations, 0);
    assert_eq!(metrics.avg_operation_duration_ms(), 150);
    assert_eq!(metrics.max_operation_duration_ms, 150);
    assert_eq!(metrics.min_operation_duration_ms, 150);
}

#[test]
fn mean_duration_rounds_down() {
    let mut collector = MetricsCollector::new(100, 0);
    collector.record_operation("a", 100, true, 10);
    collector.record_operation("b", 101, false, 20);
    collector.record_operation("a", 100, true, 30);
    let m = collector.orchestration_metrics();
    assert_eq!(m.avg_operation_duration_ms(), 100);
    assert_eq!(m.coordinator_metrics.len(), 2);
    assert_eq!(m.failed_operations, 1);
    assert_eq!(m.min_operation_duration_ms, 100);
    assert_eq!(m.max_operation_duration_ms, 101);
}

#[test]
fn shortest_duration_keeps_a_zero() {
    let mut collector = MetricsCollector::new(100, 0);
    collector.record_operation("a", 0, true, 10);
    collector.record_operation("a", 5, true, 20);
    let m = collector.orchestration_metrics();
    assert_eq!(m.min_operation_duration_ms, 0);
    assert_eq!(m.max_operation_duration_ms, 5);
}

#[test]
fn test_circuit_breaker_updates() {
    let mut collector = MetricsCollector::new(100, 0);
    collector.update_circuit_breaker("test", CircuitBreakerStatus::Open, 5, 100);
    let summary = collector.summarize_circuit_breakers();
    assert_eq!(summary.total, 1);
    assert_eq!(summary.open, 1);
    assert_eq!(summary.individual_states, vec![("test".to_string(), CircuitBreakerStatus::Open)]);
}

#[test]
fn test_metrics_history() {
    let mut collector = MetricsCollector::new(2, 0);
    collector.record_operation("test1", 100, true, 1);
    collector.save_to_history();
    collector.record_operation("test2", 200, true, 2);
    collector.save_to_history();
    collector.record_operation("test3", 300, false, 3);
    collector.save_to_history();
    let history = collector.get_metrics_history();
    assert_eq!(history.len(), 2);
    assert_eq!(history[1].total_operations, 3);
    assert_eq!(history[1].failed_operations, 1);
}

#[test]
fn test_resource_usage_updates() {
    let mut collector = MetricsCollector::new(100, 0);
    collector.update_resource_usage(10, 1024 * 1024, 5);
    let metrics = collector.orchestration_metrics();
    assert_eq!(metrics.current_concurrent_operations, 10);
    assert_eq!(metrics.max_concurrent_operations, 10);
    assert_eq!(metrics.memory_usage_bytes, 1024 * 1024);
    collector.update_resource_usage(4, 0, 6);
    assert_eq!(collector.orchestration_metrics().max_concurrent_operations, 10);
}

#[test]
fn test_aggregated_stats() {
    let mut collector = MetricsCollector::new(100, 0);
    assert_eq!(collector.get_aggregated_stats(60, 0), AggregatedStats::NoHistory { window_minutes: 60 });
    collector.record_operation("test", 100, true, 1_000);
    collector.save_to_history();
    collector.record_operation("test", 200, true, 2_000);
    collector.save_to_history();
    match collector.get_aggregated_stats(60, 3_000) {
        AggregatedStats::Window { samples_count, total_operations, successful_operations, avg_operation_duration_ms, .. } => {
            assert!(samples_count >= 1);
            assert_eq!(total_operations, 2);
            assert_eq!(successful_operations, 2);
            assert_eq!(avg_operation_duration_ms, 125);
        }
        other => panic!("unexpected {other:?}"),
    }
    assert_eq!(
        collector.get_aggregated_stats(1, 10_000_000),
        AggregatedStats::NoRecentMetrics { window_minutes: 1 }
    );
}

#[test]
fn metrics_collector_test_shutdown() {
    let mut collector = MetricsCollector::new(100, 0);
    assert!(collector.is_active());
    collector.shutdown();
    assert!(!collector.is_active());
}

#[test]
fn adaptive_optimization_flags_slow_operations() {
    let mut collector = MetricsCollector::new(100, 0);
    collector.record_operation("slow", 5_000, true, 1);
    let r = collector.run_adaptive_optimization(9);
    assert!(r.metrics_analyzed);
    assert_eq!(r.timestamp_ms, 9);
    assert!(r.actions_taken.is_empty());
    assert_eq!(r.recommendations, vec!["Рассмотреть увеличение размера thread pool".to_string()]);
}

#[test]
fn the_comprehensive_report_shows_the_figures() {
    let mut c = MetricsCollector::new(10, 1_000);
    c.record_operation("search", 100, true, 2_000);
    c.record_operation("search", 300, false, 3_000);
    c.update_circuit_breaker("search", CircuitBreakerStatus::Open, 5, 4_000);
    let r = c.all_metrics_report(vec![("search".to_string(), true)], vec![("search".to_string(), "{}".to_string())], 10_500);
    assert_eq!(r.total_operations, 2);
    assert_eq!(r.successful_operations, 1);
    assert_eq!(r.failed_operations, 1);
    assert_eq!(r.success_rate, 5000);
    assert_eq!(r.avg_operation_duration_ms, 200);
    assert_eq!(r.min_operation_duration_ms, 100);
    assert_eq!(r.max_operation_duration_ms, 300);
    assert_eq!(r.uptime_seconds, 9);
    assert_eq!(r.collected_ms_ago, 7_500);
    assert_eq!(r.circuit_breakers.len(), 1);
    assert_eq!(r.circuit_breakers[0].name, "search");
    assert_eq!(r.circuit_breakers[0].last_failure_secs_ago, Some(6));
    assert_eq!(r.readiness, vec![("search".to_string(), true)]);
    assert!(r.collection_active);
    let empty = MetricsCollector::new(10, 0).all_metrics_report(vec![], vec![], 0);
    assert_eq!(empty.success_rate, 10000);
}
