use memory::orchestration::coordinator_registry::{
    background_coordinators, core_coordinators, critical_coordinators, is_known_coordinator,
    list_coordinator_names, verify_all_ready, CoordinatorRegistryFactory, ReadinessStatus,
};
use memory::orchestration::dependency_registry::{
    CoordinatorMetadata, CoordinatorRegistry, RegistrationStatus,
};

#[test]
fn coordinator_registry_test_coordinator_list() {
    let expected_coordinators = vec!["embedding", "search", "health", "promotion", "resources", "backup"];
    assert_eq!(expected_coordinators.len(), 6);
    let names = list_coordinator_names();
    assert_eq!(names, expected_coordinators);
}

#[test]
fn coordinator_registry_old_test_coordinator_list() {
    let expected_coordinators = vec!["embedding", "search", "health", "promotion", "resources", "backup"];
    assert_eq!(expected_coordinators.len(), 6);
    assert_eq!(list_coordinator_names().len(), expected_coordinators.len());
}

#[test]
fn coordinator_groups_partition_the_known_names() {
    assert_eq!(critical_coordinators(), vec!["resources", "health"]);
    assert_eq!(core_coordinators(), vec!["embedding", "search"]);
    assert_eq!(background_coordinators(), vec!["promotion", "backup"]);
    assert!(is_known_coordinator("backup"));
    assert!(!is_known_coordinator("unknown"));
}

#[test]
fn readiness_status_counts_ready_reports() {
    let results = vec![("embedding".to_string(), true), ("search".to_string(), false), ("health".to_string(), true)];
    let status = ReadinessStatus::from_results(&results);
    assert!(!status.all_ready);
    assert_eq!(status.ready_count, 2);
    assert_eq!(status.total_count, 3);
    assert_eq!(status.not_ready_coordinators, vec!["search".to_string()]);
    assert!(!verify_all_ready(&results));
    let all = vec![("a".to_string(), true)];
    assert!(ReadinessStatus::from_results(&all).all_ready);
    assert!(verify_all_ready(&all));
    assert!(verify_all_ready(&Vec::new()));
}

#[test]
fn validation_reports_missing_coordinators_in_order() {
    let registered = vec!["search".to_string(), "backup".to_string()];
    let status = ReadinessStatus::from_results(&vec![("search".to_string(), true)]);
    let v = CoordinatorRegistryFactory::validate_registry(&registered, status);
    assert!(!v.is_valid);
    assert_eq!(v.missing_coordinators, vec!["embedding", "health", "promotion", "resources"]);
    assert_eq!(v.total_coordinators, 2);

    let all: Vec<String> = list_coordinator_names();
    let status = ReadinessStatus::from_results(&Vec::new());
    let v = CoordinatorRegistryFactory::validate_registry(&all, status);
    assert!(v.is_valid);
    assert!(v.missing_coordinators.is_empty());
    assert_eq!(v.total_coordinators, 6);
}

#[test]
fn metadata_builders_set_each_field() {
    let m = CoordinatorMetadata::new("search".to_string())
        .with_priority(7)
        .add_dependency("embedding".to_string())
        .add_capability("query".to_string())
        .with_tag("tier".to_string(), "core".to_string())
        .with_initialization_order(3)
        .as_critical();
    assert_eq!(m.name, "search");
    assert_eq!(m.priority, 7);
    assert_eq!(m.dependencies, vec!["embedding".to_string()]);
    assert_eq!(m.capabilities, vec!["query".to_string()]);
    assert_eq!(m.initialization_order, 3);
    assert!(m.is_critical);
}

#[test]
fn registration_requires_dependencies_and_unique_names() {
    let mut reg: CoordinatorRegistry<u32> = CoordinatorRegistry::new();
    let r = reg.register_coordinator(1, CoordinatorMetadata::new("embedding".to_string()), 10);
    assert!(matches!(r.status, RegistrationStatus::Registered));
    let r = reg.register_coordinator(
        2,
        CoordinatorMetadata::new("search".to_string()).add_dependency("health".to_string()),
        20,
    );
    assert!(matches!(r.status, RegistrationStatus::DependenciesNotMet));
    assert_eq!(r.missing_dependencies, vec!["health".to_string()]);
    assert_eq!(r.message, "Не все зависимости доступны для 'search'");
    let r = reg.register_coordinator(3, CoordinatorMetadata::new("embedding".to_string()), 30);
    assert!(matches!(r.status, RegistrationStatus::Duplicate));
    assert_eq!(r.message, "Координатор 'embedding' уже зарегистрирован");
    let r = reg.register_coordinator(
        4,
        CoordinatorMetadata::new("search".to_string()).add_dependency("embedding".to_string()),
        40,
    );
    assert!(matches!(r.status, RegistrationStatus::Registered));
    assert_eq!(reg.get_coordinator("search"), Some(&4));
    assert_eq!(reg.get_coordinator("health"), None);
    let order: Vec<String> = reg.get_initialization_order().into_iter().map(|(n, _)| n).collect();
    assert_eq!(order, vec!["embedding".to_string(), "search".to_string()]);
    assert_eq!(reg.check_dependencies(&vec!["health".to_string(), "embedding".to_string()]), vec!["health".to_string()]);
}

#[test]
fn initialization_plan_marks_critical_coordinators() {
    let mut reg: CoordinatorRegistry<u32> = CoordinatorRegistry::new();
    reg.register_coordinator(1, CoordinatorMetadata::new("resources".to_string()).as_critical(), 10);
    reg.register_coordinator(2, CoordinatorMetadata::new("embedding".to_string()).add_dependency("resources".to_string()), 20);
    assert_eq!(
        reg.initialization_plan(),
        vec![("resources".to_string(), true), ("embedding".to_string(), false)]
    );
}
