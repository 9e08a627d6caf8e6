//! The memory orchestrator's own state: a circuit breaker per coordinator (opening after five
//! failures in a row), the operation counters, and the gates every operation passes.
//!
//! Awaiting the coordinators, retries and background loops happen outside this library; the
//! functions here decide what each step does and record what it reported. Times are
//! milliseconds.

use vstd::prelude::*;

use crate::clock::{elapsed_ms, spec_elapsed};
use crate::counters::{bump, bump_exec};
use crate::orchestration::metrics_collector::{spec_success_rate, success_rate};
use crate::keyed::{distinct_keys, find_key, lemma_value_absent, lemma_value_at_first, lemma_value_push, lemma_value_update, same_keys, value_of};

verus! {

/// State of an orchestrator circuit breaker.
#[derive(Debug, Clone, Copy, PartialEq, Eq, Structural)]
pub enum CircuitBreakerStatus {
    Closed,
    Open,
    HalfOpen,
}

/// A circuit breaker that opens after five failures in a row and lets a trial request
/// through once its recovery timeout has passed since the last failure.
#[derive(Debug, Clone, Copy, PartialEq, Eq, Structural)]
pub struct CircuitBreakerState {
    /// Failures in a row (wrapping past `u64::MAX`).
    pub failure_count: u64,
    pub last_failure_ms: Option<u64>,
    pub state: CircuitBreakerStatus,
    pub recovery_timeout_ms: u64,
}

impl CircuitBreakerState {
    /// The breaker after a success: closed, with no failures.
    pub open spec fn after_success(self) -> Self {
        CircuitBreakerState { failure_count: 0, last_failure_ms: None, state: CircuitBreakerStatus::Closed, ..self }
    }

    /// The breaker after a failure at `now`: one more failure, which opens it from the fifth.
    pub open spec fn after_failure(self, now: u64) -> Self {
        CircuitBreakerState {
            failure_count: bump(self.failure_count),
            last_failure_ms: Some(now),
            state: if self.failure_count + 1 >= 5 { CircuitBreakerStatus::Open } else { self.state },
            ..self
        }
    }

    /// Whether a request may pass at `now`: always when closed or half-open; when open, once
    /// the recovery timeout has passed since the last failure.
    pub open spec fn allows(self, now: u64) -> bool {
        match self.state {
            CircuitBreakerStatus::Open => self.last_failure_ms matches Some(t) && spec_elapsed(now, t) >= self.recovery_timeout_ms,
            _ => true,
        }
    }

    /// The breaker after asking at `now`: an open breaker whose timeout has passed becomes
    /// half-open.
    pub open spec fn after_check(self, now: u64) -> Self {
        if self.state == CircuitBreakerStatus::Open && self.allows(now) {
            CircuitBreakerState { state: CircuitBreakerStatus::HalfOpen, ..self }
        } else {
            self
        }
    }

    /// A closed breaker with no failures and the given recovery timeout.
    pub fn new(recovery_timeout_ms: u64) -> (b: Self)
        ensures
            b == (CircuitBreakerState {
                failure_count: 0,
                last_failure_ms: None,
                state: CircuitBreakerStatus::Closed,
                recovery_timeout_ms,
            }),
    {
        CircuitBreakerState { failure_count: 0, last_failure_ms: None, state: CircuitBreakerStatus::Closed, recovery_timeout_ms }
    }

    /// Records a success: the breaker closes and forgets its failures.
    pub fn record_success(&mut self)
        ensures
            *final(self) == old(self).after_success(),
    {
        self.failure_count = 0;
        self.state = CircuitBreakerStatus::Closed;
        self.last_failure_ms = None;
    }

    /// Records a failure at `now_ms`.
    pub fn record_failure(&mut self, now_ms: u64)
        ensures
            *final(self) == old(self).after_failure(now_ms),
    {
        let reached = self.failure_count >= 4;
        self.failure_count = bump_exec(self.failure_count);
        self.last_failure_ms = Some(now_ms);
        if reached {
            self.state = CircuitBreakerStatus::Open;
        }
    }

    /// Whether a request may pass at `now_ms`; an open breaker past its timeout turns
    /// half-open and lets it through.
    pub fn can_execute(&mut self, now_ms: u64) -> (r: bool)
        ensures
            r == old(self).allows(now_ms),
            *final(self) == old(self).after_check(now_ms),
    {
        match self.state {
            CircuitBreakerStatus::Closed => true,
            CircuitBreakerStatus::HalfOpen => true,
            CircuitBreakerStatus::Open => {
                match self.last_failure_ms {
                    Some(t) => {
                        if elapsed_ms(now_ms, t) >= self.recovery_timeout_ms {
                            self.state = CircuitBreakerStatus::HalfOpen;
                            true
                        } else {
                            false
                        }
                    },
                    None => false,
                }
            },
        }
    }
}

/// The breaker after `n` failures at `now`.
pub open spec fn failed_n_times(b: CircuitBreakerState, n: nat, now: u64) -> CircuitBreakerState
    decreases n,
{
    if n == 0 { b } else { failed_n_times(b, (n - 1) as nat, now).after_failure(now) }
}

/// Five failures in a row open a fresh breaker; it then refuses requests until its recovery
/// timeout has passed since the last failure, lets the next one through half-open, and a
/// success closes it again.
pub proof fn lemma_five_failures_open(timeout: u64, now: u64, later: u64)
    ensures
        ({
            let fresh = CircuitBreakerState { failure_count: 0, last_failure_ms: None, state: CircuitBreakerStatus::Closed, recovery_timeout_ms: timeout };
            let opened = failed_n_times(fresh, 5, now);
            &&& opened.state == CircuitBreakerStatus::Open
            &&& opened.failure_count == 5
            &&& (spec_elapsed(later, now) < timeout ==> !opened.allows(later))
            &&& (spec_elapsed(later, now) >= timeout ==> opened.allows(later)
                && opened.after_check(later).state == CircuitBreakerStatus::HalfOpen
                && opened.after_check(later).after_success().state == CircuitBreakerStatus::Closed)
        }),
{
    let fresh = CircuitBreakerState { failure_count: 0, last_failure_ms: None, state: CircuitBreakerStatus::Closed, recovery_timeout_ms: timeout };
    reveal_with_fuel(failed_n_times, 6);
    assert(failed_n_times(fresh, 4, now).state == CircuitBreakerStatus::Closed);
    assert(failed_n_times(fresh, 4, now).failure_count == 4);
}

/// Fewer than five failures in a row leave a closed breaker closed.
pub proof fn lemma_under_five_stays_closed(b: CircuitBreakerState, n: nat, now: u64)
    requires
        b.state == CircuitBreakerStatus::Closed,
        b.failure_count == 0,
        n < 5,
    ensures
        failed_n_times(b, n, now).state == CircuitBreakerStatus::Closed,
        failed_n_times(b, n, now).failure_count == n,
    decreases n,
{
    if n > 0 {
        lemma_under_five_stays_closed(b, (n - 1) as nat, now);
    }
}

/// The orchestrator's operation counters.
#[derive(Debug)]
pub struct OrchestratorMetrics {
    pub total_operations: u64,
    pub successful_operations: u64,
    pub failed_operations: u64,
    /// Sum of the durations of successful searches (milliseconds), saturating.
    pub total_operation_duration_ms: u128,
    pub max_operation_duration_ms: u64,
    /// For each breaker, how many monitoring ticks found it open.
    pub circuit_breaker_trips: Vec<(String, u64)>,
    pub current_concurrent_operations: u64,
    pub max_concurrent_operations: u64,
    pub sla_violations: u64,
    pub uptime_seconds: u64,
}

/// What a gate lets an operation do.
#[derive(Debug, Clone, Copy, PartialEq, Eq, Structural)]
pub enum Gate {
    /// The orchestrator is not ready.
    NotReady,
    /// The operation's circuit breaker refused it.
    Blocked,
    Proceed,
}

/// The coordinators' breakers, with their recovery timeouts.
pub open spec fn initial_breakers() -> Seq<(Seq<char>, u64)> {
    seq![("embedding"@, 30_000u64), ("search"@, 10_000u64), ("health"@, 60_000u64),
        ("promotion"@, 120_000u64), ("resources"@, 60_000u64), ("backup"@, 300_000u64)]
}

/// A circuit breaker as the orchestrator's report shows it.
#[derive(Debug)]
pub struct BreakerReport {
    pub name: String,
    pub state: CircuitBreakerStatus,
    pub failure_count: u64,
    /// Whole seconds since its last failure, if it had one.
    pub last_failure_secs_ago: Option<u64>,
    pub recovery_timeout_secs: u64,
}

/// The figures of the orchestrator's full metrics report; rendering it is left to the caller.
#[derive(Debug)]
pub struct OrchestratorReport {
    pub ready: bool,
    pub uptime_seconds: u64,
    pub emergency_shutdown: bool,
    pub total_operations: u64,
    pub successful_operations: u64,
    pub failed_operations: u64,
    /// Successful operations as a share of all, in hundredths of a percent (100 % with none).
    pub success_rate: u128,
    /// Operations running now, as the caller counted them.
    pub current_concurrent: u64,
    pub max_concurrent: u64,
    /// Total duration of the successful searches over the operations (rounded down).
    pub avg_operation_duration_ms: u128,
    pub max_operation_duration_ms: u64,
    pub circuit_breakers: Vec<BreakerReport>,
    pub circuit_breaker_trips: Vec<(String, u64)>,
    pub sla_violations: u64,
    /// 100 % less the violations per second of uptime, in hundredths of a percent; 100 %
    /// while the uptime is under a second.
    pub uptime_percentage: i128,
    /// Readiness of embedding, search, health, promotion, resources and backup, as reported.
    pub coordinator_ready: [bool; 6],
}

/// `b` shows the breaker `name` in state `s` at `now`.
pub open spec fn breaker_report_of(b: BreakerReport, name: Seq<char>, s: CircuitBreakerState, now: u64) -> bool {
    &&& b.name@ == name
    &&& b.state == s.state
    &&& b.failure_count == s.failure_count
    &&& b.last_failure_secs_ago == (match s.last_failure_ms { Some(t) => Some(spec_elapsed(now, t) / 1000), None => None })
    &&& b.recovery_timeout_secs == s.recovery_timeout_ms / 1000
}

/// The uptime percentage of a report: 100 % less the violations per second of uptime, in
/// hundredths of a percent; 100 % while the uptime is under a second.
pub open spec fn spec_uptime_percentage(violations: u64, uptime_secs: u64) -> int {
    if uptime_secs == 0 { 10000 } else { 10000 - violations * 10000 / (uptime_secs as int) }
}

/// The orchestrator's state.
pub struct MemoryOrchestrator {
    ready: bool,
    emergency_shutdown: bool,
    start_time_ms: u64,
    circuit_breakers: Vec<(String, CircuitBreakerState)>,
    metrics: OrchestratorMetrics,
}

impl MemoryOrchestrator {
    pub closed spec fn is_on(&self) -> bool {
        self.ready
    }

    pub closed spec fn in_emergency(&self) -> bool {
        self.emergency_shutdown
    }

    pub closed spec fn started_at(&self) -> u64 {
        self.start_time_ms
    }

    pub closed spec fn breakers(&self) -> Seq<(String, CircuitBreakerState)> {
        self.circuit_breakers@
    }

    pub closed spec fn counters(&self) -> OrchestratorMetrics {
        self.metrics
    }

    /// An orchestrator created at `now_ms`, not ready, with a closed breaker for each
    /// coordinator and no operations.
    pub fn new(now_ms: u64) -> (o: Self)
        ensures
            !o.is_on(),
            !o.in_emergency(),
            o.started_at() == now_ms,
            o.breakers().len() == 6,
            distinct_keys(o.breakers()),
            forall|k: int| 0 <= k < 6 ==> (#[trigger] o.breakers()[k]).0@ == initial_breakers()[k].0
                && o.breakers()[k].1 == (CircuitBreakerState {
                    failure_count: 0,
                    last_failure_ms: None,
                    state: CircuitBreakerStatus::Closed,
                    recovery_timeout_ms: initial_breakers()[k].1,
                }),
            o.counters().total_operations == 0,
            o.counters().successful_operations == 0,
            o.counters().failed_operations == 0,
            o.counters().circuit_breaker_trips@.len() == 0,
            o.counters().sla_violations == 0,
    {
        proof {
            reveal_strlit("embedding");
            reveal_strlit("search");
            reveal_strlit("health");
            reveal_strlit("promotion");
            reveal_strlit("resources");
            reveal_strlit("backup");
        }
        let breakers = vec![
            ("embedding".to_owned(), CircuitBreakerState::new(30_000)),
            ("search".to_owned(), CircuitBreakerState::new(10_000)),
            ("health".to_owned(), CircuitBreakerState::new(60_000)),
            ("promotion".to_owned(), CircuitBreakerState::new(120_000)),
            ("resources".to_owned(), CircuitBreakerState::new(60_000)),
            ("backup".to_owned(), CircuitBreakerState::new(300_000)),
        ];
        proof {
            let names = seq!["embedding"@, "search"@, "health"@, "promotion"@, "resources"@, "backup"@];
            assert(names[0][0] == 'e' && names[1][0] == 's' && names[2][0] == 'h');
            assert(names[3][0] == 'p' && names[4][0] == 'r' && names[5][0] == 'b');
            assert forall|a: int| 0 <= a < 6 implies (#[trigger] breakers@[a]).0@ == names[a] by {}
            assert(distinct_keys(breakers@)) by {
                assert forall|a: int, b: int| 0 <= a < 6 && 0 <= b < 6 && a != b
                    implies (#[trigger] breakers@[a]).0@ != (#[trigger] breakers@[b]).0@ by {
                    assert(breakers@[a].0@[0] != breakers@[b].0@[0]);
                }
            }
        }
        MemoryOrchestrator {
            ready: false,
            emergency_shutdown: false,
            start_time_ms: now_ms,
            circuit_breakers: breakers,
            metrics: OrchestratorMetrics {
                total_operations: 0,
                successful_operations: 0,
                failed_operations: 0,
                total_operation_duration_ms: 0,
                max_operation_duration_ms: 0,
                circuit_breaker_trips: Vec::new(),
                current_concurrent_operations: 0,
                max_concurrent_operations: 0,
                sla_violations: 0,
                uptime_seconds: 0,
            },
        }
    }

    /// Whether the orchestrator is ready.
    pub fn is_ready(&self) -> (b: bool)
        ensures
            b == self.is_on(),
    {
        self.ready
    }

    /// The figures of the full metrics report at `now_ms`, with the coordinators' readiness
    /// and the number of operations running as the caller observed them.
    pub fn all_metrics_report(&self, coordinator_ready: [bool; 6], in_flight: u64, now_ms: u64) -> (r: OrchestratorReport)
        ensures
            r.ready == self.is_on(),
            r.emergency_shutdown == self.in_emergency(),
            r.uptime_seconds == spec_elapsed(now_ms, self.started_at()) / 1000,
            ({
                let m = self.counters();
                &&& r.total_operations == m.total_operations
                &&& r.successful_operations == m.successful_operations
                &&& r.failed_operations == m.failed_operations
                &&& r.success_rate == spec_success_rate(m.successful_operations, m.total_operations)
                &&& r.max_concurrent == m.max_concurrent_operations
                &&& r.avg_operation_duration_ms == (if m.total_operations == 0 { 0 } else { m.total_operation_duration_ms / (m.total_operations as u128) })
                &&& r.max_operation_duration_ms == m.max_operation_duration_ms
                &&& r.sla_violations == m.sla_violations
                &&& r.uptime_percentage == spec_uptime_percentage(m.sla_violations, r.uptime_seconds)
                &&& r.circuit_breaker_trips@.len() == m.circuit_breaker_trips@.len()
                &&& forall|k: int| 0 <= k < r.circuit_breaker_trips@.len() ==>
                    (#[trigger] r.circuit_breaker_trips@[k]).0@ == m.circuit_breaker_trips@[k].0@
                    && r.circuit_breaker_trips@[k].1 == m.circuit_breaker_trips@[k].1
            }),
            r.current_concurrent == in_flight,
            r.coordinator_ready == coordinator_ready,
            r.circuit_breakers@.len() == self.breakers().len(),
            forall|k: int| 0 <= k < r.circuit_breakers@.len() ==>
                breaker_report_of(#[trigger] r.circuit_breakers@[k], self.breakers()[k].0@, self.breakers()[k].1, now_ms),
    {
        let m = &self.metrics;
        let mut breakers: Vec<BreakerReport> = Vec::new();
        let mut i: usize = 0;
        while i < self.circuit_breakers.len()
            invariant
                i <= self.circuit_breakers@.len(),
                breakers@.len() == i,
                forall|k: int| 0 <= k < i ==>
                    breaker_report_of(#[trigger] breakers@[k], self.circuit_breakers@[k].0@, self.circuit_breakers@[k].1, now_ms),
            decreases self.circuit_breakers@.len() - i,
        {
            let b = self.circuit_breakers[i].1;
            let ago = match b.last_failure_ms {
                Some(t) => Some(elapsed_ms(now_ms, t) / 1000),
                None => None,
            };
            breakers.push(BreakerReport {
                name: self.circuit_breakers[i].0.as_str().to_owned(),
                state: b.state,
                failure_count: b.failure_count,
                last_failure_secs_ago: ago,
                recovery_timeout_secs: b.recovery_timeout_ms / 1000,
            });
            i = i + 1;
        }
        let mut trips: Vec<(String, u64)> = Vec::new();
        let mut j: usize = 0;
        while j < m.circuit_breaker_trips.len()
            invariant
                j <= m.circuit_breaker_trips@.len(),
                trips@.len() == j,
                forall|k: int| 0 <= k < j ==> (#[trigger] trips@[k]).0@ == m.circuit_breaker_trips@[k].0@
                    && trips@[k].1 == m.circuit_breaker_trips@[k].1,
            decreases m.circuit_breaker_trips@.len() - j,
        {
            trips.push((m.circuit_breaker_trips[j].0.as_str().to_owned(), m.circuit_breaker_trips[j].1));
            j = j + 1;
        }
        let uptime = elapsed_ms(now_ms, self.start_time_ms) / 1000;
        let uptime_percentage: i128 = if uptime == 0 {
            10000
        } else {
            10000 - (m.sla_violations as i128 * 10000 / uptime as i128)
        };
        OrchestratorReport {
            ready: self.ready,
            uptime_seconds: uptime,
            emergency_shutdown: self.emergency_shutdown,
            total_operations: m.total_operations,
            successful_operations: m.successful_operations,
            failed_operations: m.failed_operations,
            success_rate: success_rate(m.successful_operations, m.total_operations),
            current_concurrent: in_flight,
            max_concurrent: m.max_concurrent_operations,
            avg_operation_duration_ms: if m.total_operations == 0 { 0 } else { m.total_operation_duration_ms / m.total_operations as u128 },
            max_operation_duration_ms: m.max_operation_duration_ms,
            circuit_breakers: breakers,
            circuit_breaker_trips: trips,
            sla_violations: m.sla_violations,
            uptime_percentage,
            coordinator_ready,
        }
    }

    /// Whether an emergency shutdown was ordered; the periodic loops stop then.
    pub fn is_emergency_shutdown(&self) -> (b: bool)
        ensures
            b == self.in_emergency(),
    {
        self.emergency_shutdown
    }

    /// The operation counters.
    pub fn metrics(&self) -> (m: &OrchestratorMetrics)
        ensures
            *m == self.counters(),
    {
        &self.metrics
    }

    /// Asks the breaker of `name` at `now_ms`; a coordinator without a breaker is let through.
    pub fn check_breaker(&mut self, name: &str, now_ms: u64) -> (r: bool)
        ensures
            same_keys(final(self).breakers(), old(self).breakers()),
            match value_of(old(self).breakers(), name@) {
                Some(b) => r == b.allows(now_ms)
                    && value_of(final(self).breakers(), name@) == Some(b.after_check(now_ms)),
                None => r && final(self).breakers() == old(self).breakers(),
            },
            forall|k: Seq<char>| k != name@ ==> #[trigger] value_of(final(self).breakers(), k) == value_of(old(self).breakers(), k),
            final(self).counters() == old(self).counters(),
            final(self).is_on() == old(self).is_on(),
            final(self).in_emergency() == old(self).in_emergency(),
            final(self).started_at() == old(self).started_at(),
    {
        let ghost table = self.circuit_breakers@;
        match find_key(&self.circuit_breakers, name) {
            Some(i) => {
                proof { lemma_value_at_first(table, i as int, name@); }
                let mut b = self.circuit_breakers[i].1;
                let r = b.can_execute(now_ms);
                let p = (name.to_owned(), b);
                proof {
                    assert forall|k: Seq<char>| #[trigger] value_of(table.update(i as int, p), k)
                        == (if k == p.0@ { Some(p.1) } else { value_of(table, k) }) by {
                        lemma_value_update(table, i as int, p, k);
                    }
                }
                self.circuit_breakers.set(i, p);
                r
            },
            None => {
                proof { lemma_value_absent(table, name@); }
                true
            },
        }
    }

    /// Records the outcome of an operation on the breaker of `name` at `now_ms` (nothing for a
    /// coordinator without a breaker).
    pub fn record_outcome(&mut self, name: &str, success: bool, now_ms: u64)
        ensures
            same_keys(final(self).breakers(), old(self).breakers()),
            match value_of(old(self).breakers(), name@) {
                Some(b) => value_of(final(self).breakers(), name@)
                    == Some(if success { b.after_success() } else { b.after_failure(now_ms) }),
                None => final(self).breakers() == old(self).breakers(),
            },
            forall|k: Seq<char>| k != name@ ==> #[trigger] value_of(final(self).breakers(), k) == value_of(old(self).breakers(), k),
            final(self).counters() == old(self).counters(),
            final(self).is_on() == old(self).is_on(),
            final(self).in_emergency() == old(self).in_emergency(),
            final(self).started_at() == old(self).started_at(),
    {
        let ghost table = self.circuit_breakers@;
        match find_key(&self.circuit_breakers, name) {
            Some(i) => {
                proof { lemma_value_at_first(table, i as int, name@); }
                let mut b = self.circuit_breakers[i].1;
                if success {
                    b.record_success();
                } else {
                    b.record_failure(now_ms);
                }
                let p = (name.to_owned(), b);
                proof {
                    assert forall|k: Seq<char>| #[trigger] value_of(table.update(i as int, p), k)
                        == (if k == p.0@ { Some(p.1) } else { value_of(table, k) }) by {
                        lemma_value_update(table, i as int, p, k);
                    }
                }
                self.circuit_breakers.set(i, p);
            },
            None => {
                proof { lemma_value_absent(table, name@); }
            },
        }
    }

    /// Whether an operation on coordinator `name` may run at `now_ms`: not while the
    /// orchestrator is not ready, nor while its breaker refuses. A search refused by its breaker counts as
    /// a failed operation.
    pub fn operation_gate(&mut self, name: &str, now_ms: u64) -> (g: Gate)
        ensures
            same_keys(final(self).breakers(), old(self).breakers()),
            !old(self).is_on() ==> g == Gate::NotReady && final(self).breakers() == old(self).breakers()
                && final(self).counters() == old(self).counters(),
            old(self).is_on() ==> {
                let allowed = match value_of(old(self).breakers(), name@) { Some(b) => b.allows(now_ms), None => true };
                &&& g == (if allowed { Gate::Proceed } else { Gate::Blocked })
                &&& (g == Gate::Blocked && name@ == "search"@) ==> (
                    final(self).counters().failed_operations == bump(old(self).counters().failed_operations)
                    && final(self).counters().total_operations == bump(old(self).counters().total_operations))
                &&& !(g == Gate::Blocked && name@ == "search"@) ==> (
                    final(self).counters().failed_operations == old(self).counters().failed_operations
                    && final(self).counters().total_operations == old(self).counters().total_operations)
                &&& match value_of(old(self).breakers(), name@) {
                    Some(b) => value_of(final(self).breakers(), name@) == Some(b.after_check(now_ms)),
                    None => final(self).breakers() == old(self).breakers(),
                }
            },
            forall|k: Seq<char>| k != name@ ==> #[trigger] value_of(final(self).breakers(), k) == value_of(old(self).breakers(), k),
            final(self).counters().successful_operations == old(self).counters().successful_operations,
            final(self).counters().sla_violations == old(self).counters().sla_violations,
            final(self).counters().circuit_breaker_trips == old(self).counters().circuit_breaker_trips,
            final(self).is_on() == old(self).is_on(),
            final(self).in_emergency() == old(self).in_emergency(),
            final(self).started_at() == old(self).started_at(),
    {
        if !self.ready {
            return Gate::NotReady;
        }
        if self.check_breaker(name, now_ms) {
            Gate::Proceed
        } else {
            let key = name.to_owned();
            let search = "search".to_owned();
            proof { reveal_strlit("search"); }
            if key == search {
                self.metrics.failed_operations = bump_exec(self.metrics.failed_operations);
                self.metrics.total_operations = bump_exec(self.metrics.total_operations);
            }
            Gate::Blocked
        }
    }

    /// Records a finished search that took `duration_ms` with `in_flight` operations running,
    /// at `now_ms`: its breaker and the counters are updated, and a search over 5 ms counts as
    /// an SLA violation.
    pub fn search_finished(&mut self, success: bool, duration_ms: u64, in_flight: u64, now_ms: u64)
        ensures
            same_keys(final(self).breakers(), old(self).breakers()),
            ({
                let (a, b) = (old(self).counters(), final(self).counters());
                &&& b.total_operations == bump(a.total_operations)
                &&& (success ==> {
                    &&& b.successful_operations == bump(a.successful_operations)
                    &&& b.failed_operations == a.failed_operations
                    &&& b.current_concurrent_operations == in_flight
                    &&& b.max_concurrent_operations == (if in_flight > a.max_concurrent_operations { in_flight } else { a.max_concurrent_operations })
                    &&& b.total_operation_duration_ms == a.total_operation_duration_ms.saturating_add(duration_ms as u128)
                    &&& b.max_operation_duration_ms == (if duration_ms > a.max_operation_duration_ms { duration_ms } else { a.max_operation_duration_ms })
                    &&& b.sla_violations == (if duration_ms > 5 { bump(a.sla_violations) } else { a.sla_violations })
                })
                &&& (!success ==> {
                    &&& b.failed_operations == bump(a.failed_operations)
                    &&& b.successful_operations == a.successful_operations
                    &&& b.current_concurrent_operations == a.current_concurrent_operations
                    &&& b.max_concurrent_operations == a.max_concurrent_operations
                    &&& b.total_operation_duration_ms == a.total_operation_duration_ms
                    &&& b.max_operation_duration_ms == a.max_operation_duration_ms
                    &&& b.sla_violations == a.sla_violations
                })
                &&& b.circuit_breaker_trips == a.circuit_breaker_trips
                &&& b.uptime_seconds == a.uptime_seconds
            }),
            match value_of(old(self).breakers(), "search"@) {
                Some(b) => value_of(final(self).breakers(), "search"@)
                    == Some(if success { b.after_success() } else { b.after_failure(now_ms) }),
                None => final(self).breakers() == old(self).breakers(),
            },
            forall|k: Seq<char>| k != "search"@ ==> #[trigger] value_of(final(self).breakers(), k) == value_of(old(self).breakers(), k),
            final(self).is_on() == old(self).is_on(),
    {
        self.record_outcome("search", success, now_ms);
        let m = &mut self.metrics;
        m.total_operations = bump_exec(m.total_operations);
        if success {
            m.successful_operations = bump_exec(m.successful_operations);
            m.current_concurrent_operations = in_flight;
            if in_flight > m.max_concurrent_operations {
                m.max_concurrent_operations = in_flight;
            }
            m.total_operation_duration_ms = m.total_operation_duration_ms.saturating_add(duration_ms as u128);
            if duration_ms > m.max_operation_duration_ms {
                m.max_operation_duration_ms = duration_ms;
            }
            if duration_ms > 5 {
                m.sla_violations = bump_exec(m.sla_violations);
            }
        } else {
            m.failed_operations = bump_exec(m.failed_operations);
        }
    }

    /// Resets every breaker to closed with no failures.
    pub fn reset_circuit_breakers(&mut self)
        ensures
            same_keys(final(self).breakers(), old(self).breakers()),
            final(self).breakers().len() == old(self).breakers().len(),
            forall|k: int| 0 <= k < final(self).breakers().len() ==> (#[trigger] final(self).breakers()[k]).0 == old(self).breakers()[k].0
                && final(self).breakers()[k].1 == old(self).breakers()[k].1.after_success(),
            final(self).counters() == old(self).counters(),
            final(self).is_on() == old(self).is_on(),
    {
        let ghost before = self.circuit_breakers@;
        let mut i: usize = 0;
        while i < self.circuit_breakers.len()
            invariant
                i <= self.circuit_breakers@.len(),
                self.circuit_breakers@.len() == before.len(),
                forall|k: int| 0 <= k < self.circuit_breakers@.len() ==> (#[trigger] self.circuit_breakers@[k]).0 == before[k].0
                    && self.circuit_breakers@[k].1 == (if k < i { before[k].1.after_success() } else { before[k].1 }),
                self.metrics == old(self).metrics,
                self.ready == old(self).ready,
            decreases self.circuit_breakers@.len() - i,
        {
            self.circuit_breakers[i].1.record_success();
            i = i + 1;
        }
    }

    /// The state of each breaker: `closed`, `open` or `half_open`, in order.
    pub fn circuit_breaker_states(&self) -> (r: Vec<(String, &'static str)>)
        ensures
            r@.len() == self.breakers().len(),
            forall|k: int| 0 <= k < r@.len() ==> (#[trigger] r@[k]).0@ == self.breakers()[k].0@
                && r@[k].1@ == status_text(self.breakers()[k].1.state),
    {
        proof {
            reveal_strlit("closed");
            reveal_strlit("open");
            reveal_strlit("half_open");
        }
        let mut out: Vec<(String, &'static str)> = Vec::new();
        let mut i: usize = 0;
        while i < self.circuit_breakers.len()
            invariant
                i <= self.circuit_breakers@.len(),
                out@.len() == i,
                forall|k: int| 0 <= k < i ==> (#[trigger] out@[k]).0@ == self.circuit_breakers@[k].0@
                    && out@[k].1@ == status_text(self.circuit_breakers@[k].1.state),
            decreases self.circuit_breakers@.len() - i,
        {
            let text = match self.circuit_breakers[i].1.state {
                CircuitBreakerStatus::Closed => "closed",
                CircuitBreakerStatus::Open => "open",
                CircuitBreakerStatus::HalfOpen => "half_open",
            };
            out.push((self.circuit_breakers[i].0.clone(), text));
            i = i + 1;
        }
        out
    }

    /// What adaptive optimization should do: let the limits adapt when more than a tenth of
    /// the operations violated the SLA, clear the embedding cache when breakers opened more
    /// than ten times in all. Nothing while the orchestrator is not ready.
    pub fn adaptive_optimization_plan(&self) -> (r: (bool, bool))
        ensures
            r == (if !self.is_on() {
                (false, false)
            } else {
                (self.counters().total_operations > 0 && 10 * self.counters().sla_violations > self.counters().total_operations,
                 trips_total(self.counters().circuit_breaker_trips@) > 10)
            }),
    {
        if !self.ready {
            return (false, false);
        }
        let m = &self.metrics;
        let adapt = m.total_operations > 0 && 10 * (m.sla_violations as u128) > m.total_operations as u128;
        let trips = &m.circuit_breaker_trips;
        let mut total: u128 = 0;
        let mut i: usize = 0;
        while i < trips.len()
            invariant
                i <= trips@.len(),
                total == trips_total(trips@.take(i as int)),
                total <= i * 0xffff_ffff_ffff_ffff,
            decreases trips@.len() - i,
        {
            proof { assert(trips@.take(i + 1).drop_last() =~= trips@.take(i as int)); }
            total = total + trips[i].1 as u128;
            i = i + 1;
        }
        proof { assert(trips@.take(trips@.len() as int) =~= trips@); }
        (adapt, total > 10)
    }

    /// One tick of the health loop: the uptime grows by 30 s.
    pub fn uptime_tick(&mut self)
        ensures
            final(self).counters().uptime_seconds == old(self).counters().uptime_seconds.saturating_add(30),
            final(self).counters().total_operations == old(self).counters().total_operations,
            final(self).counters().circuit_breaker_trips == old(self).counters().circuit_breaker_trips,
            final(self).breakers() == old(self).breakers(),
            final(self).is_on() == old(self).is_on(),
    {
        self.metrics.uptime_seconds = self.metrics.uptime_seconds.saturating_add(30);
    }

    /// One tick of the metrics loop: the trip count of every breaker found open grows by one
    /// (saturating), that of a closed or half-open breaker stays as it was, and a breaker
    /// without a count gets one, starting at 1 when open and 0 otherwise. Other counts do not
    /// change.
    pub fn trips_tick(&mut self)
        ensures
            forall|key: Seq<char>| #[trigger] value_of(final(self).counters().circuit_breaker_trips@, key)
                == ticked_trips(old(self).counters().circuit_breaker_trips@, old(self).breakers(), key),
            distinct_keys(old(self).breakers()) ==> forall|k: int| 0 <= k < old(self).breakers().len() ==>
                #[trigger] value_of(final(self).counters().circuit_breaker_trips@, old(self).breakers()[k].0@)
                    == Some(trip_step(value_of(old(self).counters().circuit_breaker_trips@, old(self).breakers()[k].0@),
                        old(self).breakers()[k].1.state == CircuitBreakerStatus::Open)),
            forall|key: Seq<char>| (forall|k: int| 0 <= k < old(self).breakers().len() ==> (#[trigger] old(self).breakers()[k]).0@ != key)
                ==> #[trigger] value_of(final(self).counters().circuit_breaker_trips@, key) == value_of(old(self).counters().circuit_breaker_trips@, key),
            final(self).breakers() == old(self).breakers(),
            final(self).counters().total_operations == old(self).counters().total_operations,
            final(self).counters().successful_operations == old(self).counters().successful_operations,
            final(self).counters().failed_operations == old(self).counters().failed_operations,
            final(self).counters().uptime_seconds == old(self).counters().uptime_seconds,
            final(self).counters().sla_violations == old(self).counters().sla_violations,
            final(self).is_on() == old(self).is_on(),
            final(self).in_emergency() == old(self).in_emergency(),
    {
        let ghost start = self.metrics.circuit_breaker_trips@;
        let ghost bs = self.circuit_breakers@;
        let mut i: usize = 0;
        while i < self.circuit_breakers.len()
            invariant
                i <= bs.len(),
                self.circuit_breakers@ == bs,
                bs == old(self).circuit_breakers@,
                start == old(self).metrics.circuit_breaker_trips@,
                self.metrics.total_operations == old(self).metrics.total_operations,
                self.metrics.successful_operations == old(self).metrics.successful_operations,
                self.metrics.failed_operations == old(self).metrics.failed_operations,
                self.metrics.uptime_seconds == old(self).metrics.uptime_seconds,
                self.metrics.sla_violations == old(self).metrics.sla_violations,
                self.ready == old(self).ready,
                self.emergency_shutdown == old(self).emergency_shutdown,
                forall|key: Seq<char>| #[trigger] value_of(self.metrics.circuit_breaker_trips@, key)
                    == ticked_trips(start, bs.take(i as int), key),
            decreases bs.len() - i,
        {
            let open = self.circuit_breakers[i].1.state == CircuitBreakerStatus::Open;
            let ghost trips = self.metrics.circuit_breaker_trips@;
            let name = self.circuit_breakers[i].0.as_str();
            proof {
                assert(bs.take(i + 1).drop_last() =~= bs.take(i as int));
                assert(bs.take(i + 1).last() == bs[i as int]);
            }
            match find_key(&self.metrics.circuit_breaker_trips, name) {
                Some(j) => {
                    proof { lemma_value_at_first(trips, j as int, name@); }
                    if open {
                        let t = self.metrics.circuit_breaker_trips[j].1.saturating_add(1);
                        let p = (name.to_owned(), t);
                        proof {
                            assert forall|k: Seq<char>| #[trigger] value_of(trips.update(j as int, p), k)
                                == (if k == p.0@ { Some(p.1) } else { value_of(trips, k) }) by {
                                lemma_value_update(trips, j as int, p, k);
                            }
                        }
                        self.metrics.circuit_breaker_trips.set(j, p);
                    }
                },
                None => {
                    let p = (name.to_owned(), if open { 1u64 } else { 0u64 });
                    proof {
                        lemma_value_absent(trips, name@);
                        assert forall|k: Seq<char>| #[trigger] value_of(trips.push(p), k)
                            == (match value_of(trips, k) {
                                Some(v) => Some(v),
                                None => if p.0@ == k { Some(p.1) } else { None },
                            }) by {
                            lemma_value_push(trips, p, k);
                        }
                    }
                    self.metrics.circuit_breaker_trips.push(p);
                },
            }
            i = i + 1;
        }
        proof {
            assert(bs.take(bs.len() as int) =~= bs);
            assert forall|k: int| distinct_keys(bs) && 0 <= k < bs.len() implies
                #[trigger] ticked_trips(start, bs, bs[k].0@) == Some(trip_step(value_of(start, bs[k].0@), bs[k].1.state == CircuitBreakerStatus::Open)) by {
                lemma_ticked_distinct(start, bs, bs[k].0@);
            }
            assert forall|key: Seq<char>| (forall|k: int| 0 <= k < bs.len() ==> (#[trigger] bs[k]).0@ != key)
                implies #[trigger] ticked_trips(start, bs, key) == value_of(start, key) by {
                lemma_ticked_distinct(start, bs, key);
            }
        }
    }

    /// Whether start-up should run: not when the orchestrator is already ready.
    pub fn needs_initialization(&self) -> (b: bool)
        ensures
            b == !self.is_on(),
    {
        !self.ready
    }

    /// Marks the end of start-up at `now_ms`: the orchestrator is ready and its uptime is the
    /// whole seconds since it was created.
    pub fn finish_initialization(&mut self, now_ms: u64)
        ensures
            final(self).is_on(),
            final(self).counters().uptime_seconds == spec_elapsed(now_ms, old(self).started_at()) / 1000,
            final(self).breakers() == old(self).breakers(),
            final(self).started_at() == old(self).started_at(),
    {
        self.ready = true;
        self.metrics.uptime_seconds = elapsed_ms(now_ms, self.start_time_ms) / 1000;
    }

    /// Begins a graceful shutdown: the orchestrator is no longer ready.
    pub fn begin_shutdown(&mut self)
        ensures
            !final(self).is_on(),
            final(self).in_emergency() == old(self).in_emergency(),
            final(self).breakers() == old(self).breakers(),
    {
        self.ready = false;
    }

    /// Begins an emergency shutdown: the background tasks are told to stop and the
    /// orchestrator is no longer ready.
    pub fn emergency_shutdown(&mut self)
        ensures
            !final(self).is_on(),
            final(self).in_emergency(),
            final(self).breakers() == old(self).breakers(),
    {
        self.emergency_shutdown = true;
        self.ready = false;
    }
}

/// The state of a breaker as printed.
pub open spec fn status_text(s: CircuitBreakerStatus) -> Seq<char> {
    match s {
        CircuitBreakerStatus::Closed => "closed"@,
        CircuitBreakerStatus::Open => "open"@,
        CircuitBreakerStatus::HalfOpen => "half_open"@,
    }
}

/// The error reported for an operation on coordinator `name` that its gate did not let
/// through: the orchestrator not being ready, or the breaker of a search, an embedding or a
/// backup being open. A blocked promotion reports no error (it returns empty statistics).
pub open spec fn spec_refusal(name: Seq<char>, g: Gate) -> Option<Seq<char>> {
    match g {
        Gate::NotReady => Some("Оркестратор не готов"@),
        Gate::Blocked => if name == "search"@ {
            Some("Поиск временно недоступен (circuit breaker открыт)"@)
        } else if name == "embedding"@ {
            Some("Эмбеддинг временно недоступен (circuit breaker)"@)
        } else if name == "backup"@ {
            Some("Бэкап временно недоступен (circuit breaker)"@)
        } else {
            None
        },
        Gate::Proceed => None,
    }
}

/// The error of an operation on coordinator `name` refused at gate `g`, if it reports one.
pub fn refusal_message(name: &str, g: Gate) -> (r: Option<String>)
    ensures
        r matches Some(m) ==> spec_refusal(name@, g) == Some(m@),
        r is None ==> spec_refusal(name@, g) is None,
{
    match g {
        Gate::NotReady => Some("Оркестратор не готов".to_owned()),
        Gate::Proceed => None,
        Gate::Blocked => {
            let key = name.to_owned();
            let search = "search".to_owned();
            let embedding = "embedding".to_owned();
            let backup = "backup".to_owned();
            if key == search {
                Some("Поиск временно недоступен (circuit breaker открыт)".to_owned())
            } else if key == embedding {
                Some("Эмбеддинг временно недоступен (circuit breaker)".to_owned())
            } else if key == backup {
                Some("Бэкап временно недоступен (circuit breaker)".to_owned())
            } else {
                None
            }
        },
    }
}

/// A trip count after one tick: one more (saturating) when the breaker is open; a missing
/// count starts from zero.
pub open spec fn trip_step(prev: Option<u64>, open: bool) -> u64 {
    let t: u64 = match prev { Some(t) => t, None => 0 };
    if open { t.saturating_add(1) } else { t }
}

/// The trip count of `key` after ticking over the breakers `bs` in order, from the counts
/// `trips`.
pub open spec fn ticked_trips(trips: Seq<(String, u64)>, bs: Seq<(String, CircuitBreakerState)>, key: Seq<char>) -> Option<u64>
    decreases bs.len(),
{
    if bs.len() == 0 {
        value_of(trips, key)
    } else {
        let prev = ticked_trips(trips, bs.drop_last(), key);
        if bs.last().0@ == key { Some(trip_step(prev, bs.last().1.state == CircuitBreakerStatus::Open)) } else { prev }
    }
}

proof fn lemma_ticked_distinct(trips: Seq<(String, u64)>, bs: Seq<(String, CircuitBreakerState)>, key: Seq<char>)
    ensures
        distinct_keys(bs) ==> forall|k: int| 0 <= k < bs.len() && #[trigger] bs[k].0@ == key ==>
            ticked_trips(trips, bs, key) == Some(trip_step(value_of(trips, key), bs[k].1.state == CircuitBreakerStatus::Open)),
        (forall|k: int| 0 <= k < bs.len() ==> (#[trigger] bs[k]).0@ != key) ==> ticked_trips(trips, bs, key) == value_of(trips, key),
    decreases bs.len(),
{
    if bs.len() > 0 {
        let rest = bs.drop_last();
        lemma_ticked_distinct(trips, rest, key);
        assert forall|k: int| 0 <= k < rest.len() implies #[trigger] rest[k] == bs[k] by {}
        if distinct_keys(bs) {
            assert(distinct_keys(rest)) by {
                assert forall|a: int, b: int| 0 <= a < rest.len() && 0 <= b < rest.len() && a != b
                    implies (#[trigger] rest[a]).0@ != (#[trigger] rest[b]).0@ by {
                    assert(rest[a] == bs[a] && rest[b] == bs[b]);
                }
            }
            let last = bs.len() - 1;
            if bs.last().0@ == key {
                assert forall|k: int| 0 <= k < rest.len() implies (#[trigger] rest[k]).0@ != key by {
                    assert(rest[k] == bs[k]);
                    assert(bs[k].0@ != bs[last].0@);
                }
                assert forall|k: int| 0 <= k < bs.len() && #[trigger] bs[k].0@ == key implies
                    ticked_trips(trips, bs, key) == Some(trip_step(value_of(trips, key), bs[k].1.state == CircuitBreakerStatus::Open)) by {
                    if k != last {
                        assert(bs[k].0@ != bs[last].0@);
                    }
                }
            } else {
                assert forall|k: int| 0 <= k < bs.len() && #[trigger] bs[k].0@ == key implies
                    ticked_trips(trips, bs, key) == Some(trip_step(value_of(trips, key), bs[k].1.state == CircuitBreakerStatus::Open)) by {
                    assert(k != last);
                    assert(rest[k] == bs[k]);
                }
            }
        }
        if forall|k: int| 0 <= k < bs.len() ==> (#[trigger] bs[k]).0@ != key {
            assert(bs[bs.len() - 1].0@ != key);
            assert forall|k: int| 0 <= k < rest.len() implies (#[trigger] rest[k]).0@ != key by {
                assert(rest[k] == bs[k]);
            }
        }
    }
}

/// The sum of the trip counts.
pub open spec fn trips_total(s: Seq<(String, u64)>) -> int
    decreases s.len(),
{
    if s.len() == 0 { 0 } else { trips_total(s.drop_last()) + s.last().1 }
}

/// What a graceful shutdown does while waiting for running operations, `elapsed_ms` into the
/// wait with `available` of the 100 permits free: stop waiting when all are free or after
/// 30 s, otherwise wait 500 ms more.
pub fn drain_wait_step(elapsed_ms: u64, available: usize) -> (wait: Option<u64>)
    ensures
        wait == (if available >= 100 || elapsed_ms >= 30_000 { None::<u64> } else { Some(500u64) }),
{
    if available >= 100 || elapsed_ms >= 30_000 { None } else { Some(500) }
}

} // verus!
