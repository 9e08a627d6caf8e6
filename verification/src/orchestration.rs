//! Coordination of the memory system's components: circuit breakers, retries, lifecycle,
//! health, metrics and resource control.

pub mod background_task_manager;
pub mod backup_coordinator;
pub mod circuit_breaker_manager;
pub mod coordinator_registry;
pub mod dependency_registry;
pub mod embedding_coordinator;
pub mod health_checker;
pub mod health_manager;
pub mod lifecycle_manager;
pub mod memory_orchestrator;
pub mod metrics_collector;
pub mod operation_executor;
pub mod orchestration_lifecycle_manager;
pub mod resource_controller;
pub mod retry_handler;
pub mod search_coordinator;
pub mod traits;
