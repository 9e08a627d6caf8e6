use memory::orchestration::retry_handler::{
    RetryDecision, RetryHandler, RetryHandlerBuilder, RetryPolicy, RetryResult,
};
use memory::retry::{retry_failure_message, RetryConfig, RetryManager};

#[test]
fn hnsw_delays_double_until_the_cap() {
    let m = RetryManager::for_hnsw();
    assert_eq!(m.calculate_delay(1), 100);
    assert_eq!(m.calculate_delay(2), 200);
    assert_eq!(m.calculate_delay(3), 400);
    assert_eq!(m.calculate_delay(4), 800);
    assert_eq!(m.calculate_delay(5), 1_000);
    assert_eq!(m.calculate_delay(9), 1_000);
    assert!(m.waits_after(2));
    assert!(!m.waits_after(3));
}

#[test]
fn jitter_stays_within_a_quarter() {
    let m = RetryManager::with_defaults();
    assert_eq!(m.delay_for(1, 0), 75);
    assert_eq!(m.delay_for(1, 49), 124);
    assert_eq!(m.delay_for(1, 50), 75);
    assert_eq!(m.delay_for(2, 10), 160);
    for _ in 0..20 {
        let d = m.calculate_delay(3);
        assert!((300..500).contains(&d));
    }
    let db = RetryManager::for_database();
    assert_eq!(db.config.max_attempts, 5);
    let plain = RetryManager::new(RetryConfig { max_attempts: 2, base_delay_ms: 3, max_delay_ms: 10, backoff_multiplier_permille: 1500, jitter: true });
    assert_eq!(plain.delay_for(1, 7), 3);
    assert_eq!(plain.delay_for(2, 7), 4);
}

#[test]
fn storage_errors_are_classified() {
    assert!(RetryManager::is_retriable_error("Database LOCKED by another process"));
    assert!(RetryManager::is_retriable_error("I/O error while reading"));
    assert!(RetryManager::is_retriable_error("HNSW не инициализирован"));
    assert!(!RetryManager::is_retriable_error("invalid argument"));
}

#[test]
fn handler_errors_are_classified() {
    let h = RetryHandler::new(RetryPolicy::default());
    assert!(h.is_retriable("Request Timeout"));
    assert!(h.is_retriable("database is locked"));
    assert!(h.is_retriable("Too many open files"));
    assert!(!h.is_retriable("permission denied"));
}

#[test]
fn retry_success_first_attempt_counts_one() {
    let r: RetryResult<u32> = RetryResult::Success(42, 1);
    assert_eq!(r.attempts(), 1);
    assert_eq!(r.into_result().unwrap(), 42);
}

#[test]
fn retry_decisions_follow_the_policy() {
    let h = RetryHandler::new(RetryPolicy { max_attempts: 3, initial_delay_ms: 100, max_delay_ms: 250, backoff_multiplier_permille: 2000, jitter: false });
    assert_eq!(h.decide_after_failure(1, true, 100), RetryDecision::RetryAfter { wait_ms: 100, next_delay_ms: 200 });
    assert_eq!(h.decide_after_failure(2, true, 200), RetryDecision::RetryAfter { wait_ms: 200, next_delay_ms: 250 });
    assert_eq!(h.decide_after_failure(3, true, 250), RetryDecision::GiveUpExhausted);
    assert_eq!(h.decide_after_failure(1, false, 100), RetryDecision::GiveUpNonRetriable);
    let none = RetryHandler::new(RetryPolicy::none());
    assert_eq!(none.decide_after_failure(1, true, 0), RetryDecision::GiveUpExhausted);
    let exhausted: RetryResult<u32> = RetryResult::ExhaustedRetries(anyhow::Error::msg("timeout"));
    assert_eq!(exhausted.attempts(), 0);
    assert!(exhausted.into_result().is_err());
}

#[test]
fn handler_jitter_and_growth() {
    let h = RetryHandler::new(RetryPolicy::fast());
    assert_eq!(h.jittered_delay(100, 0), 75);
    assert_eq!(h.jittered_delay(100, 51), 76);
    assert_eq!(h.jittered_delay(3, 99), 3);
    assert_eq!(h.next_delay(100), 150);
    assert_eq!(h.next_delay(900), 1_000);
    let d = h.calculate_delay(400);
    assert!((300..=500).contains(&d));
}

#[test]
fn builder_sets_each_field() {
    let h = RetryHandlerBuilder::new()
        .max_attempts(7)
        .initial_delay(20)
        .max_delay(90)
        .backoff_multiplier(3000)
        .with_jitter(false)
        .build();
    assert_eq!(h.policy.max_attempts, 7);
    assert_eq!(h.policy.initial_delay_ms, 20);
    assert_eq!(h.policy.max_delay_ms, 90);
    assert_eq!(h.policy.backoff_multiplier_permille, 3000);
    assert!(!h.policy.jitter);
    assert_eq!(h.next_delay(20), 60);
    assert_eq!(h.next_delay(60), 90);
}

#[test]
fn backoff_is_exact_before_rounding() {
    let config = RetryConfig { max_attempts: 10, base_delay_ms: 100, max_delay_ms: 100_000, backoff_multiplier_permille: 1300, jitter: false };
    let m = RetryManager::new(config);
    assert_eq!(m.calculate_delay(1), 100);
    assert_eq!(m.calculate_delay(2), 130);
    assert_eq!(m.calculate_delay(4), 219);
    // 100 × 1.3⁴ = 285.61 ms: rounded down once, not at every step.
    assert_eq!(m.calculate_delay(5), 285);
    assert_eq!(m.calculate_delay(40), 100_000);
    let shrinking = RetryManager::new(RetryConfig { max_attempts: 10, base_delay_ms: 1000, max_delay_ms: 5000, backoff_multiplier_permille: 500, jitter: false });
    assert_eq!(shrinking.calculate_delay(3), 250);
    let huge = RetryManager::new(RetryConfig { max_attempts: 10, base_delay_ms: u64::MAX, max_delay_ms: u64::MAX, backoff_multiplier_permille: 999, jitter: false });
    assert_eq!(huge.calculate_delay(2), ((u64::MAX as u128) * 999 / 1000) as u64);
}

#[test]
fn failed_operations_name_the_last_error() {
    assert_eq!(retry_failure_message("store", 3, Some("disk full")), "Operation store failed after 3 attempts. Last error: disk full");
    assert_eq!(retry_failure_message("store", 0, None), "Operation store failed after 0 attempts. Last error: Unknown error");
}
