use memory::orchestration::lifecycle_manager::{
    failed_components, shutdown_order, shutdown_sequence, status_icon, ComponentLifecycleState, LifecycleConfig, LifecycleManager,
    LifecyclePhase, VerificationStep,
};
use memory::orchestration::orchestration_lifecycle_manager::{
    group_outcome, initialization_result, readiness_step, InitOutcome, OrchestrationLifecycleManager, ReadinessStep,
};

#[test]
fn components_move_through_the_lifecycle() {
    let mut m = LifecycleManager::new(LifecycleConfig::default(), 1_000);
    m.register_component("embedding".to_string());
    m.register_component("search".to_string());
    m.register_component("embedding".to_string());
    assert_eq!(m.component_count(), 2);
    m.mark_component_phase("embedding", LifecyclePhase::CoreServices);
    m.record_initialization("embedding", 120, None);
    m.record_initialization("search", 80, Some("no index".to_string()));
    m.record_health_check("embedding", true, true, 2_000);
    let e = m.get_component_state("embedding").unwrap();
    assert_eq!(e.phase, LifecyclePhase::CoreServices);
    assert!(e.initialized && e.ready && e.healthy);
    assert_eq!(e.initialization_time_ms, Some(120));
    assert_eq!(e.last_health_check_ms, Some(2_000));
    let s = m.get_component_state("search").unwrap();
    assert!(!s.initialized);
    assert_eq!(s.error_message, Some("no index".to_string()));
    assert_eq!(m.not_ready_components(), vec!["search".to_string()]);
    assert_eq!(m.not_healthy_components(), vec!["search".to_string()]);
    assert!(m.get_component_state("nobody").is_none());
    assert_eq!(status_icon(&e), "✅");
    assert_eq!(status_icon(&s), "❌");
    assert_eq!(m.uptime_ms(1_500), 500);
}

#[test]
fn verification_waits_until_the_timeout() {
    let m = LifecycleManager::new(LifecycleConfig::default(), 0);
    assert!(m.verification_continues(10));
    assert!(m.verification_continues(29_999));
    assert!(!m.verification_continues(30_000));
    assert_eq!(m.verification_step(true, true), VerificationStep::Done);
    assert_eq!(m.verification_step(true, false), VerificationStep::CheckAgainAfter(500));
    assert_eq!(m.verification_step(false, true), VerificationStep::CheckAgainAfter(500));
    let mut zero = LifecycleConfig::default();
    zero.health_verification_timeout_ms = 0;
    assert!(!LifecycleManager::new(zero, 0).verification_continues(0));
}

#[test]
fn shutdown_stops_components_and_requests() {
    let mut m = LifecycleManager::new(LifecycleConfig::default(), 0);
    m.register_component("health".to_string());
    m.record_health_check("health", true, true, 5);
    m.set_phase(LifecyclePhase::Ready);
    assert!(m.is_accepting_requests());
    m.finish_shutdown(&vec!["health".to_string(), "ghost".to_string()]);
    assert_eq!(m.current_phase(), LifecyclePhase::Stopped);
    assert!(!m.is_accepting_requests());
    let h = m.get_component_state("health").unwrap();
    assert!(!h.ready && !h.healthy);
    assert_eq!(shutdown_order(), vec!["backup", "promotion", "search", "embedding", "health", "resources"]);
}

#[test]
fn test_lifecycle_manager_shutdown() {
    let mut m = LifecycleManager::new(LifecycleConfig::default(), 0);
    m.register_component("test".to_string());
    m.record_health_check("test", true, true, 1);
    let stop = shutdown_sequence(&vec!["test".to_string()]);
    assert_eq!(stop, vec!["test".to_string()]);
    m.finish_shutdown(&stop);
    assert_eq!(m.current_phase(), LifecyclePhase::Stopped);
    let t = m.get_component_state("test").unwrap();
    assert!(!t.ready && !t.healthy);
}

#[test]
fn shutdown_stops_known_coordinators_first_in_reverse() {
    let names = vec!["extra".to_string(), "health".to_string(), "backup".to_string(), "search".to_string()];
    assert_eq!(
        shutdown_sequence(&names),
        vec!["backup".to_string(), "search".to_string(), "health".to_string(), "extra".to_string()]
    );
    assert!(shutdown_sequence(&vec![]).is_empty());
}

#[test]
fn lifecycle_stats_list_every_component() {
    let mut m = LifecycleManager::new(LifecycleConfig::default(), 0);
    m.register_component("backup".to_string());
    let stats = m.get_lifecycle_stats(250);
    assert!(stats.starts_with("=== Lifecycle Manager Statistics ===\n\nCurrent Phase: Uninitialized\nUptime: 250ms\nTotal Components: 1\n"));
    assert!(stats.contains("├─ ❌ backup: Phase=Uninitialized, Init=false, Ready=false, Healthy=false\n"));
}

#[test]
fn failed_initializations_are_listed() {
    let results = vec![("a".to_string(), true), ("b".to_string(), false), ("c".to_string(), false)];
    assert_eq!(failed_components(&results), vec!["b".to_string(), "c".to_string()]);
    let fresh = ComponentLifecycleState::new("x".to_string());
    assert_eq!(fresh.phase, LifecyclePhase::Uninitialized);
    assert_eq!(LifecyclePhase::HealthVerification.name(), "HealthVerification");
}

#[test]
fn phase_outcomes_name_the_failed_coordinators() {
    let ok = vec![initialization_result("health", InitOutcome::Completed, 5)];
    assert_eq!(group_outcome("Critical", &ok), Ok(()));
    let bad = vec![
        initialization_result("health", InitOutcome::Completed, 5),
        initialization_result("search", InitOutcome::TimedOut, 30_000),
        initialization_result("backup", InitOutcome::Failed("disk".to_string()), 7),
    ];
    assert_eq!(bad[1].error, Some("Timeout".to_string()));
    assert_eq!(
        group_outcome("Core", &bad),
        Err("Core: Ошибка инициализации координаторов: [\"search\", \"backup\"]".to_string())
    );
}

#[test]
fn readiness_probes_until_thirty_seconds() {
    assert_eq!(readiness_step(0, true), ReadinessStep::Ready);
    assert_eq!(readiness_step(29_999, false), ReadinessStep::ProbeAgainAfter(500));
    assert_eq!(readiness_step(30_000, false), ReadinessStep::NotReady);
    let mut m = OrchestrationLifecycleManager::new(100);
    assert!(!m.is_ready());
    assert!(m.needs_initialization());
    m.finish_initialization();
    assert!(m.is_ready());
    m.emergency_shutdown();
    assert!(m.is_emergency_shutdown());
    assert!(!m.is_ready());
    assert_eq!(m.get_uptime(1_100), 1_000);
}

use memory::orchestration::lifecycle_manager::{
    dependencies_not_ready_message, phase_members, phase_outcome, phase_timeout_message, production_phases, registry_stages,
};
use memory::orchestration::memory_orchestrator::{refusal_message, Gate};
use memory::orchestration::orchestration_lifecycle_manager::quoted_names;

#[test]
fn phase_errors_name_the_phase_and_components() {
    assert_eq!(phase_outcome(LifecyclePhase::CoreServices, &vec![("search".to_string(), true)]), Ok(()));
    assert_eq!(
        phase_outcome(
            LifecyclePhase::CoreServices,
            &vec![("embedding".to_string(), false), ("search".to_string(), true), ("x".to_string(), false)]
        ),
        Err("Не удалось инициализировать компоненты в фазе CoreServices: [\"embedding\", \"x\"]".to_string())
    );
    assert_eq!(phase_timeout_message(LifecyclePhase::CriticalInfrastructure, 30_000), "Phase CriticalInfrastructure timeout after 30s");
    assert_eq!(phase_timeout_message(LifecyclePhase::BackgroundServices, 1_500), "Phase BackgroundServices timeout after 1.5s");
    assert_eq!(dependencies_not_ready_message("search"), "Зависимости координатора 'search' не готовы");
    assert_eq!(quoted_names(&vec![]), "[]");
    assert_eq!(quoted_names(&vec!["a".to_string(), "b".to_string()]), "[\"a\", \"b\"]");
}

#[test]
fn any_name_is_printed_as_debug_formatting_prints_it() {
    let names = vec!["поиск".to_string(), "a\"b".to_string(), "c\\d".to_string(), "line\n".to_string()];
    assert_eq!(quoted_names(&names), format!("{:?}", names));
    assert_eq!(quoted_names(&names), "[\"поиск\", \"a\\\"b\", \"c\\\\d\", \"line\\n\"]");
    assert_eq!(
        phase_outcome(LifecyclePhase::CoreServices, &vec![("поиск".to_string(), false), ("ok".to_string(), true)]),
        Err("Не удалось инициализировать компоненты в фазе CoreServices: [\"поиск\"]".to_string())
    );
    let bad = vec![initialization_result("вектор\"ы", InitOutcome::TimedOut, 5)];
    assert_eq!(
        group_outcome("Core", &bad),
        Err("Core: Ошибка инициализации координаторов: [\"вектор\\\"ы\"]".to_string())
    );
}

#[test]
fn verification_failure_lists_problem_components() {
    let mut m = LifecycleManager::new(LifecycleConfig::default(), 0);
    m.register_component("health".to_string());
    m.register_component("search".to_string());
    m.record_health_check("health", true, false, 1);
    assert_eq!(
        m.verification_failure_message(),
        "Не все компоненты готовы после таймаута. Не готовы: [\"search\"], Нездоровы: [\"health\", \"search\"]"
    );
}

#[test]
fn refused_operations_report_their_reason() {
    assert_eq!(refusal_message("search", Gate::NotReady), Some("Оркестратор не готов".to_string()));
    assert_eq!(refusal_message("search", Gate::Blocked), Some("Поиск временно недоступен (circuit breaker открыт)".to_string()));
    assert_eq!(refusal_message("backup", Gate::Blocked), Some("Бэкап временно недоступен (circuit breaker)".to_string()));
    assert_eq!(refusal_message("promotion", Gate::Blocked), None);
    assert_eq!(refusal_message("search", Gate::Proceed), None);
}

#[test]
fn production_start_plans_three_phases() {
    let phases = production_phases(&LifecycleConfig::default());
    assert_eq!(phases.len(), 3);
    assert_eq!(phases[0], (LifecyclePhase::CriticalInfrastructure, vec!["resources", "health"], 30_000));
    assert_eq!(phases[1], (LifecyclePhase::CoreServices, vec!["embedding", "search"], 45_000));
    assert_eq!(phases[2], (LifecyclePhase::BackgroundServices, vec!["promotion", "backup"], 60_000));
    let available = vec!["search".to_string(), "health".to_string(), "embedding".to_string()];
    assert_eq!(phase_members(&available, &phases[0].1), vec!["health".to_string()]);
    assert_eq!(phase_members(&available, &phases[1].1), vec!["embedding".to_string(), "search".to_string()]);
    assert!(phase_members(&available, &phases[2].1).is_empty());
}

#[test]
fn registry_start_runs_critical_coordinators_first() {
    let order = vec![("resources".to_string(), true), ("embedding".to_string(), false), ("health".to_string(), true), ("search".to_string(), false)];
    let (critical, rest) = registry_stages(&order);
    assert_eq!(critical, vec!["resources".to_string(), "health".to_string()]);
    assert_eq!(rest, vec!["embedding".to_string(), "search".to_string()]);
}
