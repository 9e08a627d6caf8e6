use memory::orchestration::health_checker::{
    calculate_health_score, calculate_overall_health, check_coordinator_health, health_retry_delay_ms,
    should_retry_health_check, CoordinatorCheck, HealthCheckConfig, HealthCheckOutcome, HealthChecker,
    HealthLevel, HealthStatus, QuickHealthStatus, SystemDiagnostics,
};
use memory::orchestration::health_manager::format_duration;

fn passed(ready: bool, score: Option<u32>) -> HealthCheckOutcome {
    HealthCheckOutcome::Passed { ready, reported_score: score, metrics_json: "{}".to_string() }
}

#[test]
fn health_levels_are_ordered() {
    assert!(HealthLevel::Excellent > HealthLevel::Healthy);
    assert!(HealthLevel::Healthy > HealthLevel::Warning);
    assert!(HealthLevel::Warning > HealthLevel::Critical);
    assert_eq!(HealthLevel::Critical.rank(), 0);
    assert_eq!(HealthLevel::Excellent.rank(), 3);
    assert_eq!(HealthLevel::Warning.name(), "warning");
}

#[test]
fn health_score_averages_readiness_with_reported_score() {
    let c = HealthCheckConfig::default();
    assert_eq!(calculate_health_score(true, None, &c), (10000, HealthLevel::Excellent));
    assert_eq!(calculate_health_score(true, Some(9000), &c), (9500, HealthLevel::Excellent));
    assert_eq!(calculate_health_score(true, Some(7000), &c), (8500, HealthLevel::Healthy));
    assert_eq!(calculate_health_score(true, Some(2000), &c), (6000, HealthLevel::Warning));
    assert_eq!(calculate_health_score(true, Some(1000), &c), (5500, HealthLevel::Critical));
    assert_eq!(calculate_health_score(false, Some(9999), &c), (4999, HealthLevel::Warning));
    assert_eq!(calculate_health_score(false, None, &c), (0, HealthLevel::Warning));
    assert_eq!(calculate_health_score(false, Some(30000), &c), (15000, HealthLevel::Warning));
}

#[test]
fn health_check_retries_back_off_linearly() {
    assert_eq!(health_retry_delay_ms(0), 100);
    assert_eq!(health_retry_delay_ms(2), 300);
    assert!(should_retry_health_check(2, 3));
    assert!(!should_retry_health_check(3, 3));
}

#[test]
fn coordinator_health_check_results() {
    let c = HealthCheckConfig::default();
    let ok = check_coordinator_health("test", passed(true, None), &c, 12, 1_000);
    assert_eq!(ok.level, HealthLevel::Excellent);
    assert!(ok.score >= 9500);
    assert_eq!(ok.message, "Coordinator test operational");
    assert_eq!(ok.details, vec![("ready".to_string(), "true".to_string()), ("metrics".to_string(), "{}".to_string())]);
    assert_eq!(ok.check_duration_ms, 12);
    assert_eq!(ok.last_check_ms, 1_000);

    let failed = check_coordinator_health("test", HealthCheckOutcome::Failed("boom".to_string()), &c, 3, 5);
    assert_eq!(failed.level, HealthLevel::Critical);
    assert_eq!(failed.score, 0);
    assert_eq!(failed.message, "Health check failed: boom");

    let late = check_coordinator_health("test", HealthCheckOutcome::TimedOut, &c, 5_000, 5);
    assert_eq!(late.message, "Health check timed out after 5s");
    let mut quick = HealthCheckConfig::default();
    quick.check_timeout_ms = 1_250;
    let late = check_coordinator_health("test", HealthCheckOutcome::TimedOut, &quick, 0, 0);
    assert_eq!(late.message, "Health check timed out after 1.25s");
}

#[test]
fn overall_health_weighs_worse_levels_more() {
    let c = HealthCheckConfig::default();
    let statuses = vec![
        ("a".to_string(), HealthStatus::new(HealthLevel::Healthy, 9000, String::new(), 0)),
        ("b".to_string(), HealthStatus::new(HealthLevel::Warning, 7000, String::new(), 0)),
    ];
    assert_eq!(calculate_overall_health(&statuses, &c), (7800, HealthLevel::Warning));
    let with_critical = vec![
        ("a".to_string(), HealthStatus::new(HealthLevel::Excellent, 10000, String::new(), 0)),
        ("b".to_string(), HealthStatus::new(HealthLevel::Critical, 0, String::new(), 0)),
    ];
    assert_eq!(calculate_overall_health(&with_critical, &c), (3333, HealthLevel::Critical));
    assert_eq!(calculate_overall_health(&Vec::new(), &c), (0, HealthLevel::Critical));
}

#[test]
fn diagnostics_history_keeps_the_latest_runs() {
    let mut diag = HealthChecker::new(HealthCheckConfig::default(), 2, 0);
    for run in 0..3u64 {
        let status = check_coordinator_health("test", passed(true, None), &HealthCheckConfig::default(), 1, run);
        let outcomes = vec![("test".to_string(), CoordinatorCheck::Completed(status))];
        let d = diag.perform_system_diagnostics(outcomes, run * 10, run * 10 + 4);
        assert_eq!(d.coordinator_statuses.len(), 1);
        assert_eq!(d.total_check_duration_ms, 4);
    }
    let history = diag.get_diagnostics_history();
    assert_eq!(history.len(), 2);
    assert_eq!(history[0].check_timestamp_ms, 10);
    assert_eq!(history[1].check_timestamp_ms, 20);
    assert_eq!(diag.total_checks(), 3);
    assert_eq!(diag.failed_checks(), 0);
}

#[test]
fn diagnostics_with_a_warning_coordinator() {
    let mut diag = HealthChecker::with_defaults(0);
    assert!(diag.is_active());
    assert_eq!(diag.max_history_size(), 100);
    let c = HealthCheckConfig::default();
    let outcomes = vec![
        ("healthy".to_string(), CoordinatorCheck::Completed(check_coordinator_health("healthy", passed(true, None), &c, 1, 1))),
        ("warning".to_string(), CoordinatorCheck::Completed(check_coordinator_health("warning", passed(false, Some(3000)), &c, 1, 1))),
        ("gone".to_string(), CoordinatorCheck::Errored("no route".to_string())),
    ];
    let d = diag.perform_system_diagnostics(outcomes, 0, 2);
    assert_eq!(d.coordinator_statuses.len(), 3);
    assert!(d.overall_score > 0);
    assert_eq!(d.overall_health, HealthLevel::Critical);
    assert!(!d.is_system_ready());
    assert!(d.system_issues.contains(&"Координатор gone недоступен: no route".to_string()));
    assert_eq!(diag.failed_checks(), 1);
    diag.shutdown();
    assert!(!diag.is_active());
}

#[test]
fn test_system_diagnostics() {
    let mut checker = HealthChecker::with_defaults(0);
    let c = HealthCheckConfig::default();
    let outcomes = vec![
        ("healthy".to_string(), CoordinatorCheck::Completed(check_coordinator_health("healthy", passed(true, Some(9500)), &c, 1, 1))),
        ("warning".to_string(), CoordinatorCheck::Completed(check_coordinator_health("warning", passed(false, Some(3000)), &c, 1, 1))),
    ];
    let diagnostics = checker.perform_system_diagnostics(outcomes, 0, 2);
    assert_eq!(diagnostics.coordinator_statuses.len(), 2);
    assert!(diagnostics.overall_score > 0);
    assert!(matches!(diagnostics.overall_health, HealthLevel::Warning | HealthLevel::Healthy));
    // 97.5 points with weight 1 and 15 points with weight 1.5 average to 48 points.
    assert_eq!(diagnostics.overall_score, 4800);
    assert_eq!(diagnostics.overall_health, HealthLevel::Warning);
}

#[test]
fn quick_status_levels() {
    let all = vec![("a".to_string(), true), ("b".to_string(), true)];
    let q = QuickHealthStatus::from_readiness(2, &all, 7);
    assert_eq!(q.level, HealthLevel::Healthy);
    assert_eq!(q.ready_coordinators, 2);
    assert_eq!(q.total_coordinators, 2);
    let most = vec![("a".to_string(), true), ("b".to_string(), true), ("c".to_string(), true), ("d".to_string(), false)];
    assert_eq!(QuickHealthStatus::from_readiness(4, &most, 7).level, HealthLevel::Warning);
    let few = vec![("a".to_string(), true), ("b".to_string(), false)];
    assert_eq!(QuickHealthStatus::from_readiness(2, &few, 7).level, HealthLevel::Critical);
    let mut diag = HealthChecker::with_defaults(0);
    diag.record_quick_status(2, &all, 100);
    assert!(diag.get_cached_quick_status(101).is_some());
}

#[test]
fn durations_are_printed_in_units() {
    assert_eq!(format_duration(59), "59s");
    assert_eq!(format_duration(61), "1m 1s");
    assert_eq!(format_duration(3_725), "1h 2m");
    assert_eq!(format_duration(90_061), "25h 1m");
}

use memory::orchestration::health_manager::{AlertLevel, ComponentStatus, HealthManager, SystemReport};

#[test]
fn alert_list_keeps_the_latest_hundred() {
    let mut m = HealthManager::new();
    for t in 0..105u64 {
        m.create_alert("cpu", AlertLevel::Info, format!("note {t}"), t);
    }
    assert_eq!(m.alerts_len(), 100);
    m.clear_alerts();
}

#[test]
fn failure_streaks_raise_warning_then_critical() {
    let mut m = HealthManager::new();
    m.register_component("vector_store", 30_000, 0);
    m.record_component_status("vector_store", ComponentStatus::Unhealthy, 10);
    assert_eq!(m.alerts_len(), 1);
    m.record_component_status("vector_store", ComponentStatus::Unhealthy, 20);
    assert_eq!(m.alerts_len(), 1);
    m.record_component_status("vector_store", ComponentStatus::Unhealthy, 30);
    assert_eq!(m.alerts_len(), 2);
    assert!(!m.component_health("vector_store"));
    m.record_component_status("vector_store", ComponentStatus::Healthy, 40);
    assert!(m.component_health("vector_store"));
    m.record_component_status("unknown", ComponentStatus::Unhealthy, 50);
    assert_eq!(m.alerts_len(), 2);
}

#[test]
fn failed_monitor_counts_and_alerts() {
    let mut m = HealthManager::new();
    assert!(!m.run_health_check(None, 40, 100));
    let f = m.health_metrics();
    assert_eq!(f.total_checks, 1);
    assert_eq!(f.failed_checks, 1);
    assert_eq!(f.avg_check_duration_ms, 40);
    assert_eq!(f.last_check_ms, Some(100));
    assert_eq!(m.alerts_len(), 1);
    assert!(!m.run_health_check(None, 140, 200));
    assert_eq!(m.health_metrics().avg_check_duration_ms, 50);
}

#[test]
fn readiness_needs_a_score_above_seventy_points() {
    let status = HealthStatus::new(HealthLevel::Healthy, 7000, String::new(), 0);
    let mut d = SystemDiagnostics {
        overall_health: HealthLevel::Healthy,
        overall_score: 7000,
        coordinator_statuses: vec![("a".to_string(), status)],
        system_issues: vec![],
        recommendations: vec![],
        check_timestamp_ms: 0,
        total_check_duration_ms: 0,
    };
    assert!(!d.is_system_ready());
    d.overall_score = 7001;
    assert!(d.is_system_ready());
}

#[test]
fn a_report_updates_components_and_raises_alerts() {
    let mut m = HealthManager::new();
    m.register_component("vector_store", 30_000, 0);
    m.register_component("cache_system", 60_000, 0);
    let report = SystemReport {
        overall_healthy: false,
        components: vec![
            ("vector_store".to_string(), ComponentStatus::Unhealthy),
            ("cache_system".to_string(), ComponentStatus::Healthy),
            ("unmonitored".to_string(), ComponentStatus::Unhealthy),
        ],
    };
    assert!(m.run_health_check(Some(report), 30, 1_000));
    assert!(!m.component_health("vector_store"));
    assert!(m.component_health("cache_system"));
    assert_eq!(m.alerts_len(), 1);
    assert_eq!(m.history_len(), 1);
    let lines = m.get_alerts(1_000);
    assert_eq!(lines.len(), 1);
    assert!(lines[0].contains("Компонент vector_store показывает проблемы"), "{}", lines[0]);
}
