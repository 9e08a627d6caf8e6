//! Running an operation under the full resilience stack: a circuit breaker gate, a resource
//! check, the retry policy of its kind, and the bookkeeping of its outcome.
//!
//! Acquiring a permit, awaiting the operation and its retries happen outside this library;
//! these functions take what admission depends on and the outcome after retries. Times are milliseconds.

use vstd::prelude::*;
use vstd::string::StringExecFns;

use crate::errors::error_message;
use crate::orchestration::circuit_breaker_manager::{CircuitBreakerManager, ensured};
use crate::orchestration::retry_handler::{RetryHandler, RetryPolicy, RetryResult};

verus! {

/// What running one operation amounted to.
#[derive(Debug)]
pub struct OperationMetrics {
    pub operation_type: String,
    pub duration_ms: u64,
    pub success: bool,
    /// Attempts of a success; 0 for a failure (the count is not reported then).
    pub retry_attempts: u32,
    pub circuit_breaker_triggered: bool,
}

/// Retry handlers for each kind of operation.
pub struct RetryHandlers {
    pub search: RetryHandler,
    pub embedding: RetryHandler,
    pub promotion: RetryHandler,
    pub backup: RetryHandler,
}

impl Default for RetryHandlers {
    /// Fast retries for search, the default policy for embeddings, aggressive retries for
    /// promotion and backup.
    fn default() -> (h: Self)
        ensures
            h.search.policy.max_attempts == 2 && h.search.policy.initial_delay_ms == 50,
            h.embedding.policy.max_attempts == 3 && h.embedding.policy.initial_delay_ms == 100,
            h.promotion.policy.max_attempts == 5 && h.promotion.policy.initial_delay_ms == 200,
            h.backup.policy.max_attempts == 5 && h.backup.policy.initial_delay_ms == 200,
    {
        RetryHandlers {
            search: RetryHandler::new(RetryPolicy::fast()),
            embedding: RetryHandler::new(RetryPolicy::default()),
            promotion: RetryHandler::new(RetryPolicy::aggressive()),
            backup: RetryHandler::new(RetryPolicy::aggressive()),
        }
    }
}

/// Whether an operation may run, and if not, why.
#[derive(Debug)]
pub enum Admission {
    Proceed,
    /// The operation's circuit breaker is open.
    CircuitOpen(String),
    /// The resources are short; the caller should let the limits adapt.
    InsufficientResources(String),
}

/// Decides at `now_ms` whether `operation_name` may run: its circuit breaker is asked first,
/// then whether resources are available (`resources_ok`).
pub fn admit_operation(breakers: &mut CircuitBreakerManager, operation_name: &str, resources_ok: bool, now_ms: u64) -> (a: Admission)
    requires
        old(breakers).wf(),
    ensures
        final(breakers).wf(),
        ({
            let m = ensured(old(breakers).view_map(), operation_name@, old(breakers).spec_default_config());
            &&& final(breakers).view_map() == m.insert(operation_name@, m[operation_name@].spec_after_check(now_ms))
            &&& match a {
                Admission::Proceed => m[operation_name@].spec_allows(now_ms) && resources_ok,
                Admission::CircuitOpen(msg) => !m[operation_name@].spec_allows(now_ms)
                    && msg@ == operation_name@ + " временно недоступен (circuit breaker открыт)"@,
                Admission::InsufficientResources(msg) => m[operation_name@].spec_allows(now_ms) && !resources_ok
                    && msg@ == "Недостаточно ресурсов для "@ + operation_name@,
            }
        }),
{
    if !breakers.can_execute_at(operation_name, now_ms) {
        let mut msg = String::new();
        msg.append(operation_name);
        msg.append(" временно недоступен (circuit breaker открыт)");
        return Admission::CircuitOpen(msg);
    }
    if !resources_ok {
        let mut msg = String::new();
        msg.append("Недостаточно ресурсов для ");
        msg.append(operation_name);
        return Admission::InsufficientResources(msg);
    }
    Admission::Proceed
}

/// Settles the retried outcome of `operation_name`, which took `duration_ms` and ended at
/// `now_ms`: a success is recorded on its circuit breaker and returned with its metrics; a
/// failure is recorded and reported as `<operation> failed: <error>`.
pub fn settle_operation<T>(breakers: &mut CircuitBreakerManager, operation_name: &str, result: RetryResult<T>, duration_ms: u64, now_ms: u64) -> (r: Result<(T, OperationMetrics), String>)
    requires
        old(breakers).wf(),
    ensures
        final(breakers).wf(),
        ({
            let m = ensured(old(breakers).view_map(), operation_name@, old(breakers).spec_default_config());
            match result {
                RetryResult::Success(v, attempts) => {
                    &&& final(breakers).view_map() == m.insert(operation_name@, m[operation_name@].spec_record_success())
                    &&& r matches Ok((value, metrics)) && value == v && metrics.operation_type@ == operation_name@
                        && metrics.duration_ms == duration_ms && metrics.success && metrics.retry_attempts == attempts
                        && !metrics.circuit_breaker_triggered
                },
                _ => {
                    &&& final(breakers).view_map() == m.insert(operation_name@, m[operation_name@].spec_record_failure(now_ms))
                    &&& r matches Err(msg) && (operation_name@ + " failed: "@).is_prefix_of(msg@)
                },
            }
        }),
{
    match result {
        RetryResult::Success(v, attempts) => {
            breakers.record_success_for(operation_name);
            let metrics = OperationMetrics {
                operation_type: operation_name.to_owned(),
                duration_ms,
                success: true,
                retry_attempts: attempts,
                circuit_breaker_triggered: false,
            };
            Ok((v, metrics))
        },
        RetryResult::ExhaustedRetries(e) => {
            breakers.record_failure_at(operation_name, now_ms);
            Err(failure_message(operation_name, &e))
        },
        RetryResult::NonRetriable(e) => {
            breakers.record_failure_at(operation_name, now_ms);
            Err(failure_message(operation_name, &e))
        },
    }
}

/// `<operation> failed: <error>`.
fn failure_message(operation_name: &str, e: &anyhow::Error) -> (s: String)
    ensures
        (operation_name@ + " failed: "@).is_prefix_of(s@),
{
    proof { reveal_strlit(" failed: "); }
    let mut s = String::new();
    s.append(operation_name);
    s.append(" failed: ");
    let ghost head = s@;
    let text = error_message(e);
    s.append(text.as_str());
    proof {
        assert(s@.subrange(0, head.len() as int) =~= head);
    }
    s
}

} // verus!
