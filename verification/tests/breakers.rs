use memory::orchestration::circuit_breaker_manager::{
    CircuitBreakerConfig, CircuitBreakerManager, CircuitBreakerState, CircuitBreakerStatus,
};
use memory::orchestration::memory_orchestrator as orch;
use memory::orchestration::search_coordinator::{CircuitState, SearchCircuitBreaker};

#[test]
fn circuit_breaker_lifecycle_with_times() {
    let mut manager = CircuitBreakerManager::new();
    manager.initialize_standard_coordinators().unwrap();
    let component = "test_component";
    manager
        .add_component(component, Some(CircuitBreakerConfig { failure_threshold: 2, recovery_timeout_ms: 100 }))
        .unwrap();
    assert!(manager.can_execute_at(component, 1_000));
    assert_eq!(manager.get_status(component), Some(CircuitBreakerStatus::Closed));
    manager.record_failure_at(component, 1_000);
    assert!(manager.can_execute_at(component, 1_001));
    manager.record_failure_at(component, 1_002);
    assert!(!manager.can_execute_at(component, 1_003));
    assert_eq!(manager.get_status(component), Some(CircuitBreakerStatus::Open));
    assert!(!manager.can_execute_at(component, 1_101));
    assert!(manager.can_execute_at(component, 1_152));
    assert_eq!(manager.get_status(component), Some(CircuitBreakerStatus::HalfOpen));
    manager.record_success_for(component);
    assert_eq!(manager.get_status(component), Some(CircuitBreakerStatus::Closed));
    assert!(manager.can_execute_at(component, 1_153));
}

#[test]
fn circuit_breaker_statistics_after_two_failures() {
    let mut manager = CircuitBreakerManager::new();
    manager.add_component("stats_test", None).unwrap();
    manager.record_failure_at("stats_test", 5_000);
    manager.record_failure_at("stats_test", 6_000);
    let stats = manager.get_statistics_at(9_500);
    let (_, s) = stats.iter().find(|(n, _)| n == "stats_test").unwrap();
    assert_eq!(s.failure_count, 2);
    assert_eq!(s.last_failure_seconds_ago, Some(3));
    assert_eq!(s.status, CircuitBreakerStatus::Closed);
    assert_eq!(s.recovery_timeout_seconds, 30);
}

#[test]
fn reset_all_closes_every_breaker() {
    let mut manager = CircuitBreakerManager::new();
    manager.initialize_standard_coordinators().unwrap();
    for t in 0..5 {
        manager.record_failure_at("search", t);
        manager.record_failure_at("embedding", t);
    }
    assert_eq!(manager.get_status("search"), Some(CircuitBreakerStatus::Open));
    manager.reset_all().unwrap();
    assert_eq!(manager.get_status("search"), Some(CircuitBreakerStatus::Closed));
    assert_eq!(manager.get_status("embedding"), Some(CircuitBreakerStatus::Closed));
    assert_eq!(manager.get_status("nobody"), None);
}

#[test]
fn preset_configurations_open_at_their_thresholds() {
    let mut manager = CircuitBreakerManager::new();
    manager.add_component("fast", Some(CircuitBreakerConfig::fast())).unwrap();
    manager.add_component("critical", Some(CircuitBreakerConfig::critical())).unwrap();
    for _ in 0..2 {
        manager.record_failure_at("fast", 10);
    }
    assert!(manager.can_execute_at("fast", 11));
    manager.record_failure_at("fast", 10);
    assert!(!manager.can_execute_at("fast", 11));
    for _ in 0..2 {
        manager.record_failure_at("critical", 10);
    }
    assert!(!manager.can_execute_at("critical", 11));
    assert_eq!(CircuitBreakerConfig::standard().failure_threshold, 5);
    assert_eq!(CircuitBreakerConfig::critical().recovery_timeout_ms, 300_000);
}

#[test]
fn single_breaker_opens_at_threshold_and_recovers() {
    let mut b = CircuitBreakerState::new(&CircuitBreakerConfig { failure_threshold: 3, recovery_timeout_ms: 50 });
    b.record_failure_at(100);
    b.record_failure_at(100);
    assert_eq!(b.state, CircuitBreakerStatus::Closed);
    b.record_failure_at(100);
    assert_eq!(b.state, CircuitBreakerStatus::Open);
    assert!(!b.can_execute_at(149));
    assert!(b.can_execute_at(150));
    assert_eq!(b.state, CircuitBreakerStatus::HalfOpen);
    b.record_success();
    assert_eq!(b.failure_count, 0);
    assert_eq!(b.state, CircuitBreakerStatus::Closed);
}

#[test]
fn orchestrator_breaker_opens_after_five_failures() {
    let mut b = orch::CircuitBreakerState::new(60_000);
    for _ in 0..4 {
        b.record_failure(1_000);
    }
    assert_eq!(b.state, orch::CircuitBreakerStatus::Closed);
    assert!(b.can_execute(1_000));
    b.record_failure(1_000);
    assert_eq!(b.state, orch::CircuitBreakerStatus::Open);
    assert!(!b.can_execute(60_999));
    assert!(b.can_execute(61_000));
    assert_eq!(b.state, orch::CircuitBreakerStatus::HalfOpen);
    b.record_success();
    assert_eq!(b.state, orch::CircuitBreakerStatus::Closed);
}

#[test]
fn search_breaker_full_cycle() {
    let mut b = SearchCircuitBreaker::new();
    for _ in 0..9 {
        b.record_failure(0);
    }
    assert!(b.check(0).is_ok());
    b.record_failure(0);
    assert_eq!(b.state, CircuitState::Open);
    let refused = b.check(60_000);
    assert_eq!(refused, Err("🚫 Search circuit breaker OPEN - поиск временно недоступен".to_string()));
    assert!(b.check(60_001).is_ok());
    assert_eq!(b.state, CircuitState::HalfOpen);
    b.record_success();
    b.record_success();
    assert_eq!(b.state, CircuitState::HalfOpen);
    b.record_success();
    assert_eq!(b.state, CircuitState::Closed);
    assert_eq!(b.failure_count, 0);
}
