//! Metrics of the orchestrator: operation counters, per-coordinator figures, circuit breaker
//! states, resource usage, SLA violations, a history of snapshots and a cache of rendered
//! reports.
//!
//! Times are milliseconds. Averages and percentages are derived from exact sums and counts
//! when they are reported: the state keeps the total duration of the operations rather than
//! a running mean, and availability is kept in hundredths of a percent. Counters wrap to zero
//! past `u64::MAX`. Rendering reports as JSON happens outside this library, which caches the
//! rendered text.

use vstd::prelude::*;

use crate::clock::{elapsed_ms, spec_elapsed};
use crate::keyed::{find_key, first_at, lemma_value_at_first, lemma_value_absent, lemma_value_push, lemma_value_update, value_of};
use crate::counters::{bump, bump_exec};

verus! {

/// Result of an adaptive optimization pass.
#[derive(Debug)]
pub struct AdaptiveOptimizationResult {
    pub actions_taken: Vec<String>,
    pub recommendations: Vec<String>,
    pub metrics_analyzed: bool,
    /// When the pass ran (milliseconds).
    pub timestamp_ms: u64,
}

/// Kinds of metrics.
#[derive(Debug, PartialEq, Eq)]
pub enum MetricType {
    Performance,
    Health,
    CircuitBreaker,
    Resource,
    SLA,
    Custom(String),
}

/// Figures of one coordinator.
#[derive(Debug)]
pub struct CoordinatorMetrics {
    pub total_requests: u64,
    pub failed_requests: u64,
    /// Sum of the response times (milliseconds), saturating at `u128::MAX`.
    pub total_response_time_ms: u128,
    pub circuit_breaker_state: String,
    /// Health score in hundredths of a point.
    pub health_score: u32,
    pub last_updated_ms: Option<u64>,
}

impl CoordinatorMetrics {
    /// No requests yet, an empty circuit breaker state and a zero health score.
    pub fn new() -> (m: Self)
        ensures
            m.total_requests == 0,
            m.failed_requests == 0,
            m.total_response_time_ms == 0,
            m.circuit_breaker_state@.len() == 0,
            m.health_score == 0,
            m.last_updated_ms is None,
    {
        CoordinatorMetrics {
            total_requests: 0,
            failed_requests: 0,
            total_response_time_ms: 0,
            circuit_breaker_state: String::new(),
            health_score: 0,
            last_updated_ms: None,
        }
    }

    /// A copy of these figures.
    pub fn duplicate(&self) -> (m: Self)
        ensures
            m.total_requests == self.total_requests,
            m.failed_requests == self.failed_requests,
            m.total_response_time_ms == self.total_response_time_ms,
            m.circuit_breaker_state@ == self.circuit_breaker_state@,
            m.health_score == self.health_score,
            m.last_updated_ms == self.last_updated_ms,
    {
        CoordinatorMetrics {
            total_requests: self.total_requests,
            failed_requests: self.failed_requests,
            total_response_time_ms: self.total_response_time_ms,
            circuit_breaker_state: self.circuit_breaker_state.clone(),
            health_score: self.health_score,
            last_updated_ms: self.last_updated_ms,
        }
    }
}

/// Overall metrics of the orchestrator.
#[derive(Debug)]
pub struct OrchestrationMetrics {
    pub total_operations: u64,
    pub successful_operations: u64,
    pub failed_operations: u64,
    /// Figures of each coordinator that ran an operation, in order of first appearance.
    pub coordinator_metrics: Vec<(String, CoordinatorMetrics)>,
    /// Sum of the operation durations (milliseconds), saturating at `u128::MAX`.
    pub total_operation_duration_ms: u128,
    pub max_operation_duration_ms: u64,
    /// Shortest operation; `u64::MAX` before the first one.
    pub min_operation_duration_ms: u64,
    /// How many times each coordinator's circuit breaker opened.
    pub circuit_breaker_trips: Vec<(String, u64)>,
    pub current_concurrent_operations: u64,
    pub max_concurrent_operations: u64,
    pub memory_usage_bytes: u64,
    pub sla_violations: u64,
    pub uptime_seconds: u64,
    /// Availability in hundredths of a percent (10000 is 100 %).
    pub availability: u32,
    /// When these metrics were last updated (milliseconds).
    pub collected_at_ms: u64,
}

/// The mean operation duration: the sum of the durations divided by their number, rounded
/// down; zero before any operation.
pub open spec fn spec_avg_duration(m: OrchestrationMetrics) -> int {
    if m.total_operations == 0 { 0 } else { m.total_operation_duration_ms as int / m.total_operations as int }
}

/// Metrics as they start: no operations, no coordinators, no trips, zero durations,
/// concurrency, memory, violations and uptime, no shortest operation yet (`u64::MAX`),
/// full availability, collected at `now_ms`.
pub open spec fn fresh_metrics(m: OrchestrationMetrics, now_ms: u64) -> bool {
    &&& m.total_operations == 0 && m.successful_operations == 0 && m.failed_operations == 0
    &&& m.coordinator_metrics@.len() == 0
    &&& m.total_operation_duration_ms == 0
    &&& m.max_operation_duration_ms == 0
    &&& m.min_operation_duration_ms == u64::MAX
    &&& m.circuit_breaker_trips@.len() == 0
    &&& m.current_concurrent_operations == 0 && m.max_concurrent_operations == 0
    &&& m.memory_usage_bytes == 0
    &&& m.sla_violations == 0
    &&& m.uptime_seconds == 0
    &&& m.availability == 10000
    &&& m.collected_at_ms == now_ms
}

impl OrchestrationMetrics {
    /// No operations, no coordinators, full availability, collected at `now_ms`.
    pub fn new(now_ms: u64) -> (m: Self)
        ensures
            fresh_metrics(m, now_ms),
    {
        OrchestrationMetrics {
            total_operations: 0,
            successful_operations: 0,
            failed_operations: 0,
            coordinator_metrics: Vec::new(),
            total_operation_duration_ms: 0,
            max_operation_duration_ms: 0,
            min_operation_duration_ms: u64::MAX,
            circuit_breaker_trips: Vec::new(),
            current_concurrent_operations: 0,
            max_concurrent_operations: 0,
            memory_usage_bytes: 0,
            sla_violations: 0,
            uptime_seconds: 0,
            availability: 10000,
            collected_at_ms: now_ms,
        }
    }

    /// The mean operation duration in milliseconds, rounded down; zero before any operation.
    pub fn avg_operation_duration_ms(&self) -> (a: u128)
        ensures
            a == spec_avg_duration(*self),
    {
        if self.total_operations == 0 { 0 } else { self.total_operation_duration_ms / self.total_operations as u128 }
    }

    /// A copy of these metrics (the counters exactly, the strings by content).
    pub fn duplicate(&self) -> (m: Self)
        ensures
            same_counters(m, *self),
            m.coordinator_metrics@.len() == self.coordinator_metrics@.len(),
            forall|k: int| 0 <= k < m.coordinator_metrics@.len() ==> (#[trigger] m.coordinator_metrics@[k]).0@ == self.coordinator_metrics@[k].0@
                && m.coordinator_metrics@[k].1.total_requests == self.coordinator_metrics@[k].1.total_requests
                && m.coordinator_metrics@[k].1.failed_requests == self.coordinator_metrics@[k].1.failed_requests
                && m.coordinator_metrics@[k].1.total_response_time_ms == self.coordinator_metrics@[k].1.total_response_time_ms,
            m.circuit_breaker_trips@.len() == self.circuit_breaker_trips@.len(),
            forall|k: int| 0 <= k < m.circuit_breaker_trips@.len() ==> (#[trigger] m.circuit_breaker_trips@[k]).0@ == self.circuit_breaker_trips@[k].0@
                && m.circuit_breaker_trips@[k].1 == self.circuit_breaker_trips@[k].1,
    {
        let mut cms: Vec<(String, CoordinatorMetrics)> = Vec::new();
        let mut i: usize = 0;
        while i < self.coordinator_metrics.len()
            invariant
                i <= self.coordinator_metrics@.len(),
                cms@.len() == i,
                forall|k: int| 0 <= k < i ==> (#[trigger] cms@[k]).0@ == self.coordinator_metrics@[k].0@
                    && cms@[k].1.total_requests == self.coordinator_metrics@[k].1.total_requests
                    && cms@[k].1.failed_requests == self.coordinator_metrics@[k].1.failed_requests
                    && cms@[k].1.total_response_time_ms == self.coordinator_metrics@[k].1.total_response_time_ms,
            decreases self.coordinator_metrics@.len() - i,
        {
            cms.push((self.coordinator_metrics[i].0.clone(), self.coordinator_metrics[i].1.duplicate()));
            i = i + 1;
        }
        let mut trips: Vec<(String, u64)> = Vec::new();
        let mut j: usize = 0;
        while j < self.circuit_breaker_trips.len()
            invariant
                j <= self.circuit_breaker_trips@.len(),
                trips@.len() == j,
                forall|k: int| 0 <= k < j ==> (#[trigger] trips@[k]).0@ == self.circuit_breaker_trips@[k].0@
                    && trips@[k].1 == self.circuit_breaker_trips@[k].1,
            decreases self.circuit_breaker_trips@.len() - j,
        {
            trips.push((self.circuit_breaker_trips[j].0.clone(), self.circuit_breaker_trips[j].1));
            j = j + 1;
        }
        OrchestrationMetrics {
            total_operations: self.total_operations,
            successful_operations: self.successful_operations,
            failed_operations: self.failed_operations,
            coordinator_metrics: cms,
            total_operation_duration_ms: self.total_operation_duration_ms,
            max_operation_duration_ms: self.max_operation_duration_ms,
            min_operation_duration_ms: self.min_operation_duration_ms,
            circuit_breaker_trips: trips,
            current_concurrent_operations: self.current_concurrent_operations,
            max_concurrent_operations: self.max_concurrent_operations,
            memory_usage_bytes: self.memory_usage_bytes,
            sla_violations: self.sla_violations,
            uptime_seconds: self.uptime_seconds,
            availability: self.availability,
            collected_at_ms: self.collected_at_ms,
        }
    }
}

/// `a` and `b` agree on every counter and figure that is not a table.
pub open spec fn same_counters(a: OrchestrationMetrics, b: OrchestrationMetrics) -> bool {
    &&& a.total_operations == b.total_operations
    &&& a.successful_operations == b.successful_operations
    &&& a.failed_operations == b.failed_operations
    &&& a.total_operation_duration_ms == b.total_operation_duration_ms
    &&& a.max_operation_duration_ms == b.max_operation_duration_ms
    &&& a.min_operation_duration_ms == b.min_operation_duration_ms
    &&& a.current_concurrent_operations == b.current_concurrent_operations
    &&& a.max_concurrent_operations == b.max_concurrent_operations
    &&& a.memory_usage_bytes == b.memory_usage_bytes
    &&& a.sla_violations == b.sla_violations
    &&& a.uptime_seconds == b.uptime_seconds
    &&& a.availability == b.availability
    &&& a.collected_at_ms == b.collected_at_ms
}

/// State of a circuit breaker, as the metrics report it.
#[derive(Debug, Clone, Copy, PartialEq, Eq, Structural)]
pub enum CircuitBreakerStatus {
    Closed,
    Open,
    HalfOpen,
}

/// What the metrics know of one circuit breaker.
#[derive(Debug, Clone, Copy, PartialEq, Eq, Structural)]
pub struct CircuitBreakerMetric {
    pub status: CircuitBreakerStatus,
    pub failure_count: u64,
    /// When it last opened (milliseconds), if it ever did.
    pub last_failure_ms: Option<u64>,
    pub recovery_timeout_ms: u64,
    pub success_threshold: u32,
}

/// The metric of a circuit breaker seen for the first time: closed, no failures, recovery
/// after 60 s, five successes to close.
pub open spec fn fresh_breaker_metric() -> CircuitBreakerMetric {
    CircuitBreakerMetric {
        status: CircuitBreakerStatus::Closed,
        failure_count: 0,
        last_failure_ms: None,
        recovery_timeout_ms: 60_000,
        success_threshold: 5,
    }
}

/// Summary of the circuit breakers: each one's state and how many are in each state.
#[derive(Debug)]
pub struct CircuitBreakerSummary {
    pub individual_states: Vec<(String, CircuitBreakerStatus)>,
    pub open: usize,
    pub half_open: usize,
    pub closed: usize,
    pub total: usize,
}

/// Statistics of the history over a time window.
#[derive(Debug, Clone, Copy, PartialEq, Eq, Structural)]
pub enum AggregatedStats {
    /// No snapshot was saved yet.
    NoHistory { window_minutes: u32 },
    /// No snapshot was saved within the window.
    NoRecentMetrics { window_minutes: u32 },
    /// Figures of the snapshots within the window.
    Window {
        window_minutes: u32,
        samples_count: usize,
        /// Operations counted by the latest snapshot in the window.
        total_operations: u64,
        /// Successful operations counted by the latest snapshot in the window.
        successful_operations: u64,
        /// Mean of the snapshots' mean operation durations, rounded down (their sum saturates
        /// at `u128::MAX`).
        avg_operation_duration_ms: u128,
        /// Highest concurrency any snapshot in the window saw.
        max_concurrent_operations: u64,
        /// SLA violations counted by the latest snapshot in the window.
        sla_violations: u64,
    },
}

/// How recording an operation of coordinator `name` that took `d` ms at `now` and succeeded
/// or not takes the metrics `a` to `b`.
pub open spec fn records_operation(a: OrchestrationMetrics, b: OrchestrationMetrics, name: Seq<char>, d: u64, success: bool, now: u64) -> bool {
    &&& b.total_operations == bump(a.total_operations)
    &&& b.successful_operations == (if success { bump(a.successful_operations) } else { a.successful_operations })
    &&& (a.total_operations == a.successful_operations + a.failed_operations && a.total_operations < u64::MAX
        ==> b.total_operations == b.successful_operations + b.failed_operations)
    &&& b.failed_operations == (if success { a.failed_operations } else { bump(a.failed_operations) })
    &&& b.total_operation_duration_ms == a.total_operation_duration_ms.saturating_add(d as u128)
    &&& b.max_operation_duration_ms == (if d > a.max_operation_duration_ms { d } else { a.max_operation_duration_ms })
    &&& b.min_operation_duration_ms == (if d < a.min_operation_duration_ms { d } else { a.min_operation_duration_ms })
    &&& b.collected_at_ms == now
    &&& b.circuit_breaker_trips == a.circuit_breaker_trips
    &&& b.current_concurrent_operations == a.current_concurrent_operations
    &&& b.max_concurrent_operations == a.max_concurrent_operations
    &&& b.memory_usage_bytes == a.memory_usage_bytes
    &&& b.sla_violations == a.sla_violations
    &&& b.uptime_seconds == a.uptime_seconds
    &&& b.availability == a.availability
    &&& value_of(b.coordinator_metrics@, name) matches Some(e) && {
        let (tot, fail, time, state) = match value_of(a.coordinator_metrics@, name) {
            Some(o) => (o.total_requests, o.failed_requests, o.total_response_time_ms, o.circuit_breaker_state@),
            None => (0u64, 0u64, 0u128, Seq::<char>::empty()),
        };
        &&& e.total_requests == bump(tot)
        &&& e.failed_requests == (if success { fail } else { bump(fail) })
        &&& e.total_response_time_ms == time.saturating_add(d as u128)
        &&& e.circuit_breaker_state@ == state
        &&& e.last_updated_ms == Some(now)
    }
    &&& forall|k: Seq<char>| k != name ==> #[trigger] value_of(b.coordinator_metrics@, k) == value_of(a.coordinator_metrics@, k)
}

/// An operation as recorded: coordinator, duration, success and time.
pub type RecordedOperation = (Seq<char>, u64, bool, u64);

/// How many of the operations succeeded.
pub open spec fn ok_count(ops: Seq<RecordedOperation>) -> nat
    decreases ops.len(),
{
    if ops.len() == 0 { 0 } else { ok_count(ops.drop_last()) + if ops.last().2 { 1nat } else { 0nat } }
}

/// The sum of the operations' durations.
pub open spec fn duration_sum(ops: Seq<RecordedOperation>) -> int
    decreases ops.len(),
{
    if ops.len() == 0 { 0 } else { duration_sum(ops.drop_last()) + ops.last().1 }
}

/// The longest duration; 0 without operations.
pub open spec fn duration_max(ops: Seq<RecordedOperation>) -> u64
    decreases ops.len(),
{
    if ops.len() == 0 {
        0
    } else {
        let m = duration_max(ops.drop_last());
        if ops.last().1 > m { ops.last().1 } else { m }
    }
}

/// The shortest duration; `u64::MAX` without operations.
pub open spec fn duration_min(ops: Seq<RecordedOperation>) -> u64
    decreases ops.len(),
{
    if ops.len() == 0 {
        u64::MAX
    } else {
        let m = duration_min(ops.drop_last());
        if ops.last().1 < m { ops.last().1 } else { m }
    }
}

/// How many of the operations ran on coordinator `k`.
pub open spec fn name_count(ops: Seq<RecordedOperation>, k: Seq<char>) -> nat
    decreases ops.len(),
{
    if ops.len() == 0 { 0 } else { name_count(ops.drop_last(), k) + if ops.last().0 == k { 1nat } else { 0nat } }
}

proof fn lemma_counts_bounded(ops: Seq<RecordedOperation>, k: Seq<char>)
    ensures
        ok_count(ops) <= ops.len(),
        name_count(ops, k) <= ops.len(),
        0 <= duration_sum(ops) <= ops.len() * 0xffff_ffff_ffff_ffff,
    decreases ops.len(),
{
    if ops.len() > 0 {
        lemma_counts_bounded(ops.drop_last(), k);
    }
}

/// Metrics that start fresh and then record the operations `ops` in order, one after another
/// (`ms[i + 1]` recording `ops[i]` on `ms[i]`), count every operation, every success and
/// every failure, sum the durations, keep the longest and the shortest, and count each
/// coordinator's requests.
pub proof fn lemma_recorded_operations(ms: Seq<OrchestrationMetrics>, ops: Seq<RecordedOperation>, start_ms: u64)
    requires
        ms.len() == ops.len() + 1,
        ops.len() < u64::MAX,
        fresh_metrics(ms[0], start_ms),
        forall|i: int| 0 <= i < ops.len() ==> records_operation(#[trigger] ms[i], ms[i + 1], ops[i].0, ops[i].1, ops[i].2, ops[i].3),
    ensures
        ms.last().total_operations == ops.len(),
        ms.last().successful_operations == ok_count(ops),
        ms.last().failed_operations == ops.len() - ok_count(ops),
        ms.last().total_operation_duration_ms == duration_sum(ops),
        ms.last().max_operation_duration_ms == duration_max(ops),
        ms.last().min_operation_duration_ms == duration_min(ops),
        forall|k: Seq<char>| #![trigger value_of(ms.last().coordinator_metrics@, k)]
            (value_of(ms.last().coordinator_metrics@, k) is Some <==> name_count(ops, k) > 0)
            && (value_of(ms.last().coordinator_metrics@, k) matches Some(e) ==> e.total_requests == name_count(ops, k)),
    decreases ops.len(),
{
    if ops.len() == 0 {
        assert forall|k: Seq<char>| #[trigger] value_of(ms.last().coordinator_metrics@, k) is None by {
            lemma_value_absent(ms.last().coordinator_metrics@, k);
        }
    } else {
        let n = ops.len() - 1;
        let pre_ms = ms.take(ms.len() - 1);
        let pre = ops.drop_last();
        assert forall|i: int| 0 <= i < pre.len() implies records_operation(#[trigger] pre_ms[i], pre_ms[i + 1], pre[i].0, pre[i].1, pre[i].2, pre[i].3) by {
            assert(pre_ms[i] == ms[i] && pre_ms[i + 1] == ms[i + 1] && pre[i] == ops[i]);
            assert(records_operation(ms[i], ms[i + 1], ops[i].0, ops[i].1, ops[i].2, ops[i].3));
        }
        assert(pre_ms[0] == ms[0]);
        lemma_recorded_operations(pre_ms, pre, start_ms);
        let a = ms[n];
        let b = ms[n + 1];
        assert(pre_ms.last() == a);
        assert(b == ms.last());
        assert(records_operation(ms[n], ms[n + 1], ops[n].0, ops[n].1, ops[n].2, ops[n].3));
        assert(ops.last() == ops[n]);
        lemma_counts_bounded(pre, ops[n].0);
        assert forall|k: Seq<char>| #![trigger value_of(b.coordinator_metrics@, k)]
            (value_of(b.coordinator_metrics@, k) is Some <==> name_count(ops, k) > 0)
            && (value_of(b.coordinator_metrics@, k) matches Some(e) ==> e.total_requests == name_count(ops, k)) by {
            lemma_counts_bounded(pre, k);
            if k != ops[n].0 {
                assert(value_of(b.coordinator_metrics@, k) == value_of(a.coordinator_metrics@, k));
            }
        }
    }
}

/// `part` as a share of `whole` in hundredths of a percent; a full 100 % when `whole` is 0.
pub open spec fn spec_success_rate(part: u64, whole: u64) -> int {
    if whole == 0 { 10000 } else { part * 10000 / (whole as int) }
}

/// `part` as a share of `whole` in hundredths of a percent; a full 100 % when `whole` is 0.
pub fn success_rate(part: u64, whole: u64) -> (r: u128)
    ensures
        r == spec_success_rate(part, whole),
{
    if whole == 0 { 10000 } else { part as u128 * 10000 / whole as u128 }
}

/// A circuit breaker as a report shows it.
#[derive(Debug)]
pub struct BreakerFigures {
    pub name: String,
    pub status: CircuitBreakerStatus,
    pub failure_count: u64,
    /// Whole seconds since it last opened, if it ever did.
    pub last_failure_secs_ago: Option<u64>,
    pub recovery_timeout_secs: u64,
    pub success_threshold: u32,
}

/// The figures of the comprehensive metrics report; rendering it is left to the caller.
#[derive(Debug)]
pub struct MetricsReport {
    pub total_operations: u64,
    pub successful_operations: u64,
    pub failed_operations: u64,
    /// Successful operations as a share of all, in hundredths of a percent.
    pub success_rate: u128,
    pub avg_operation_duration_ms: u128,
    pub max_operation_duration_ms: u64,
    pub min_operation_duration_ms: u64,
    pub current_concurrent_operations: u64,
    pub max_concurrent_operations: u64,
    pub memory_usage_bytes: u64,
    pub sla_violations: u64,
    pub uptime_seconds: u64,
    pub availability: u32,
    /// Milliseconds since the metrics were last updated.
    pub collected_ms_ago: u64,
    /// Each coordinator's readiness and its rendered metrics, as reported.
    pub readiness: Vec<(String, bool)>,
    pub coordinator_metrics: Vec<(String, String)>,
    pub circuit_breakers: Vec<BreakerFigures>,
    pub history_size: usize,
    pub max_history_size: usize,
    pub collection_active: bool,
}

/// `b` shows the breaker `name` with metric `m` at `now`.
pub open spec fn breaker_figures_of(b: BreakerFigures, name: Seq<char>, m: CircuitBreakerMetric, now: u64) -> bool {
    &&& b.name@ == name
    &&& b.status == m.status
    &&& b.failure_count == m.failure_count
    &&& b.last_failure_secs_ago == (match m.last_failure_ms { Some(t) => Some(spec_elapsed(now, t) / 1000), None => None })
    &&& b.recovery_timeout_secs == m.recovery_timeout_ms / 1000
    &&& b.success_threshold == m.success_threshold
}

/// Collects the orchestrator's metrics.
pub struct MetricsCollector {
    current: OrchestrationMetrics,
    /// Snapshots, oldest first.
    history: Vec<OrchestrationMetrics>,
    max_history_size: usize,
    circuit_breakers: Vec<(String, CircuitBreakerMetric)>,
    start_time_ms: u64,
    active: bool,
    /// Rendered reports by name, with when they were rendered.
    cache: Vec<(String, (String, u64))>,
    cache_ttl_ms: u64,
}

impl MetricsCollector {
    pub closed spec fn metrics(&self) -> OrchestrationMetrics {
        self.current
    }

    /// The saved snapshots, oldest first.
    pub closed spec fn snapshots(&self) -> Seq<OrchestrationMetrics> {
        self.history@
    }

    pub closed spec fn history_limit(&self) -> nat {
        self.max_history_size as nat
    }

    pub closed spec fn breakers(&self) -> Seq<(String, CircuitBreakerMetric)> {
        self.circuit_breakers@
    }

    pub closed spec fn started_at(&self) -> u64 {
        self.start_time_ms
    }

    pub closed spec fn is_on(&self) -> bool {
        self.active
    }

    /// The cached reports: name, rendered text and when it was rendered.
    pub closed spec fn cached(&self) -> Seq<(String, (String, u64))> {
        self.cache@
    }

    pub closed spec fn cache_ttl(&self) -> u64 {
        self.cache_ttl_ms
    }

    /// The history never holds more snapshots than its limit.
    pub open spec fn wf(&self) -> bool {
        self.snapshots().len() <= self.history_limit()
    }

    /// An active collector started at `now_ms` keeping at most `max_history_size` snapshots,
    /// with fresh metrics and a cache that lasts 30 s.
    pub fn new(max_history_size: usize, now_ms: u64) -> (c: Self)
        ensures
            c.wf(),
            fresh_metrics(c.metrics(), now_ms),
            c.snapshots().len() == 0,
            c.history_limit() == max_history_size,
            c.breakers().len() == 0,
            c.started_at() == now_ms,
            c.is_on(),
            c.cached().len() == 0,
            c.cache_ttl() == 30_000,
    {
        MetricsCollector {
            current: OrchestrationMetrics::new(now_ms),
            history: Vec::new(),
            max_history_size,
            circuit_breakers: Vec::new(),
            start_time_ms: now_ms,
            active: true,
            cache: Vec::new(),
            cache_ttl_ms: 30_000,
        }
    }

    /// Whether the collector is active.
    pub fn is_active(&self) -> (b: bool)
        ensures
            b == self.is_on(),
    {
        self.active
    }

    /// The most snapshots the history keeps.
    pub fn max_history_size(&self) -> (n: usize)
        ensures
            n == self.history_limit(),
    {
        self.max_history_size
    }

    /// The current metrics.
    pub fn orchestration_metrics(&self) -> (m: &OrchestrationMetrics)
        ensures
            *m == self.metrics(),
    {
        &self.current
    }

    /// Records an operation of `coordinator_name` that took `duration_ms` at `now_ms` and
    /// succeeded or not: the counters, the duration extremes, the coordinator's figures and
    /// the update time change, and the cache is emptied.
    pub fn record_operation(&mut self, coordinator_name: &str, duration_ms: u64, success: bool, now_ms: u64)
        ensures
            records_operation(old(self).metrics(), final(self).metrics(), coordinator_name@, duration_ms, success, now_ms),
            final(self).cached().len() == 0,
            final(self).snapshots() == old(self).snapshots(),
            final(self).history_limit() == old(self).history_limit(),
            final(self).breakers() == old(self).breakers(),
            final(self).is_on() == old(self).is_on(),
            final(self).started_at() == old(self).started_at(),
    {
        let m = &mut self.current;
        m.total_operations = bump_exec(m.total_operations);
        if success {
            m.successful_operations = bump_exec(m.successful_operations);
        } else {
            m.failed_operations = bump_exec(m.failed_operations);
        }
        m.total_operation_duration_ms = m.total_operation_duration_ms.saturating_add(duration_ms as u128);
        if duration_ms > m.max_operation_duration_ms {
            m.max_operation_duration_ms = duration_ms;
        }
        if duration_ms < m.min_operation_duration_ms {
            m.min_operation_duration_ms = duration_ms;
        }
        let ghost table = m.coordinator_metrics@;
        match find_key(&m.coordinator_metrics, coordinator_name) {
            Some(i) => {
                proof { lemma_value_at_first(table, i as int, coordinator_name@); }
                let e = &mut m.coordinator_metrics[i].1;
                e.total_requests = bump_exec(e.total_requests);
                if !success {
                    e.failed_requests = bump_exec(e.failed_requests);
                }
                e.total_response_time_ms = e.total_response_time_ms.saturating_add(duration_ms as u128);
                e.last_updated_ms = Some(now_ms);
                proof {
                    let p = m.coordinator_metrics@[i as int];
                    assert(m.coordinator_metrics@ == table.update(i as int, p));
                    assert forall|k: Seq<char>| #[trigger] value_of(table.update(i as int, p), k)
                        == (if k == p.0@ { Some(p.1) } else { value_of(table, k) }) by {
                        lemma_value_update(table, i as int, p, k);
                    }
                }
            },
            None => {
                let mut e = CoordinatorMetrics::new();
                assert(e.circuit_breaker_state@ =~= Seq::<char>::empty());
                e.total_requests = 1;
                if !success {
                    e.failed_requests = 1;
                }
                e.total_response_time_ms = duration_ms as u128;
                e.last_updated_ms = Some(now_ms);
                let p = (coordinator_name.to_owned(), e);
                proof {
                    lemma_value_absent(table, coordinator_name@);
                    assert forall|k: Seq<char>| #[trigger] value_of(table.push(p), k)
                        == (match value_of(table, k) {
                            Some(v) => Some(v),
                            None => if p.0@ == k { Some(p.1) } else { None },
                        }) by {
                        lemma_value_push(table, p, k);
                    }
                }
                m.coordinator_metrics.push(p);
            },
        }
        m.collected_at_ms = now_ms;
        self.cache = Vec::new();
    }

    /// Records that the circuit breaker of `coordinator_name` is now in `status` with
    /// `failure_count` failures, at `now_ms`. A breaker seen for the first time starts from
    /// the fresh metric. When it is open, its last failure is now and the coordinator's trip
    /// count goes up by one.
    pub fn update_circuit_breaker(&mut self, coordinator_name: &str, status: CircuitBreakerStatus, failure_count: u64, now_ms: u64)
        ensures
            ({
                let base = match value_of(old(self).breakers(), coordinator_name@) {
                    Some(b) => b,
                    None => fresh_breaker_metric(),
                };
                value_of(final(self).breakers(), coordinator_name@) == Some(CircuitBreakerMetric {
                    status,
                    failure_count,
                    last_failure_ms: if status == CircuitBreakerStatus::Open { Some(now_ms) } else { base.last_failure_ms },
                    ..base
                })
            }),
            forall|k: Seq<char>| k != coordinator_name@ ==> #[trigger] value_of(final(self).breakers(), k) == value_of(old(self).breakers(), k),
            status == CircuitBreakerStatus::Open ==> value_of(final(self).metrics().circuit_breaker_trips@, coordinator_name@)
                == Some(bump(match value_of(old(self).metrics().circuit_breaker_trips@, coordinator_name@) { Some(t) => t, None => 0u64 })),
            status == CircuitBreakerStatus::Open ==> forall|k: Seq<char>| k != coordinator_name@
                ==> #[trigger] value_of(final(self).metrics().circuit_breaker_trips@, k) == value_of(old(self).metrics().circuit_breaker_trips@, k),
            status != CircuitBreakerStatus::Open ==> final(self).metrics().circuit_breaker_trips == old(self).metrics().circuit_breaker_trips,
            same_counters(final(self).metrics(), old(self).metrics()),
            final(self).metrics().coordinator_metrics == old(self).metrics().coordinator_metrics,
            final(self).snapshots() == old(self).snapshots(),
            final(self).history_limit() == old(self).history_limit(),
            final(self).cached() == old(self).cached(),
            final(self).is_on() == old(self).is_on(),
            final(self).started_at() == old(self).started_at(),
    {
        let ghost table = self.circuit_breakers@;
        let is_open = match status {
            CircuitBreakerStatus::Open => true,
            _ => false,
        };
        match find_key(&self.circuit_breakers, coordinator_name) {
            Some(i) => {
                proof { lemma_value_at_first(table, i as int, coordinator_name@); }
                let mut b = self.circuit_breakers[i].1;
                b.status = status;
                b.failure_count = failure_count;
                if is_open {
                    b.last_failure_ms = Some(now_ms);
                }
                let p = (coordinator_name.to_owned(), b);
                proof {
                    assert forall|k: Seq<char>| #[trigger] value_of(table.update(i as int, p), k)
                        == (if k == p.0@ { Some(p.1) } else { value_of(table, k) }) by {
                        lemma_value_update(table, i as int, p, k);
                    }
                }
                self.circuit_breakers.set(i, p);
            },
            None => {
                let b = CircuitBreakerMetric {
                    status,
                    failure_count,
                    last_failure_ms: if is_open { Some(now_ms) } else { None },
                    recovery_timeout_ms: 60_000,
                    success_threshold: 5,
                };
                let p = (coordinator_name.to_owned(), b);
                proof {
                    lemma_value_absent(table, coordinator_name@);
                    assert forall|k: Seq<char>| #[trigger] value_of(table.push(p), k)
                        == (match value_of(table, k) {
                            Some(v) => Some(v),
                            None => if p.0@ == k { Some(p.1) } else { None },
                        }) by {
                        lemma_value_push(table, p, k);
                    }
                }
                self.circuit_breakers.push(p);
            },
        }
        if is_open {
            let ghost trips = self.current.circuit_breaker_trips@;
            match find_key(&self.current.circuit_breaker_trips, coordinator_name) {
                Some(i) => {
                    proof { lemma_value_at_first(trips, i as int, coordinator_name@); }
                    let t = bump_exec(self.current.circuit_breaker_trips[i].1);
                    let p = (coordinator_name.to_owned(), t);
                    proof {
                        assert forall|k: Seq<char>| #[trigger] value_of(trips.update(i as int, p), k)
                            == (if k == p.0@ { Some(p.1) } else { value_of(trips, k) }) by {
                            lemma_value_update(trips, i as int, p, k);
                        }
                    }
                    self.current.circuit_breaker_trips.set(i, p);
                },
                None => {
                    let p = (coordinator_name.to_owned(), 1u64);
                    proof {
                        lemma_value_absent(trips, coordinator_name@);
                        assert forall|k: Seq<char>| #[trigger] value_of(trips.push(p), k)
                            == (match value_of(trips, k) {
                                Some(v) => Some(v),
                                None => if p.0@ == k { Some(p.1) } else { None },
                            }) by {
                            lemma_value_push(trips, p, k);
                        }
                    }
                    self.current.circuit_breaker_trips.push(p);
                },
            }
        }
    }

    /// Seconds since the collector started, at `now_ms`.
    pub fn uptime_seconds(&self, now_ms: u64) -> (u: u64)
        ensures
            u == spec_elapsed(now_ms, self.started_at()) / 1000,
    {
        elapsed_ms(now_ms, self.start_time_ms) / 1000
    }

    /// The figures of the comprehensive report at `now_ms`, with each coordinator's readiness
    /// and rendered metrics as the caller gathered them.
    pub fn all_metrics_report(&self, readiness: Vec<(String, bool)>, metrics_json: Vec<(String, String)>, now_ms: u64) -> (r: MetricsReport)
        ensures
            ({
                let m = self.metrics();
                &&& r.total_operations == m.total_operations
                &&& r.successful_operations == m.successful_operations
                &&& r.failed_operations == m.failed_operations
                &&& r.success_rate == spec_success_rate(m.successful_operations, m.total_operations)
                &&& r.avg_operation_duration_ms == spec_avg_duration(m)
                &&& r.max_operation_duration_ms == m.max_operation_duration_ms
                &&& r.min_operation_duration_ms == m.min_operation_duration_ms
                &&& r.current_concurrent_operations == m.current_concurrent_operations
                &&& r.max_concurrent_operations == m.max_concurrent_operations
                &&& r.memory_usage_bytes == m.memory_usage_bytes
                &&& r.sla_violations == m.sla_violations
                &&& r.availability == m.availability
                &&& r.collected_ms_ago == spec_elapsed(now_ms, m.collected_at_ms)
            }),
            r.uptime_seconds == spec_elapsed(now_ms, self.started_at()) / 1000,
            r.readiness == readiness,
            r.coordinator_metrics == metrics_json,
            r.circuit_breakers@.len() == self.breakers().len(),
            forall|k: int| 0 <= k < r.circuit_breakers@.len() ==>
                breaker_figures_of(#[trigger] r.circuit_breakers@[k], self.breakers()[k].0@, self.breakers()[k].1, now_ms),
            r.history_size == self.snapshots().len(),
            r.max_history_size == self.history_limit(),
            r.collection_active == self.is_on(),
    {
        let m = &self.current;
        let mut breakers: Vec<BreakerFigures> = Vec::new();
        let mut i: usize = 0;
        while i < self.circuit_breakers.len()
            invariant
                i <= self.circuit_breakers@.len(),
                breakers@.len() == i,
                forall|k: int| 0 <= k < i ==>
                    breaker_figures_of(#[trigger] breakers@[k], self.circuit_breakers@[k].0@, self.circuit_breakers@[k].1, now_ms),
            decreases self.circuit_breakers@.len() - i,
        {
            let (name, b) = (&self.circuit_breakers[i].0, &self.circuit_breakers[i].1);
            let ago = match b.last_failure_ms {
                Some(t) => Some(elapsed_ms(now_ms, t) / 1000),
                None => None,
            };
            breakers.push(BreakerFigures {
                name: name.as_str().to_owned(),
                status: b.status,
                failure_count: b.failure_count,
                last_failure_secs_ago: ago,
                recovery_timeout_secs: b.recovery_timeout_ms / 1000,
                success_threshold: b.success_threshold,
            });
            i = i + 1;
        }
        MetricsReport {
            total_operations: m.total_operations,
            successful_operations: m.successful_operations,
            failed_operations: m.failed_operations,
            success_rate: success_rate(m.successful_operations, m.total_operations),
            avg_operation_duration_ms: m.avg_operation_duration_ms(),
            max_operation_duration_ms: m.max_operation_duration_ms,
            min_operation_duration_ms: m.min_operation_duration_ms,
            current_concurrent_operations: m.current_concurrent_operations,
            max_concurrent_operations: m.max_concurrent_operations,
            memory_usage_bytes: m.memory_usage_bytes,
            sla_violations: m.sla_violations,
            uptime_seconds: self.uptime_seconds(now_ms),
            availability: m.availability,
            collected_ms_ago: elapsed_ms(now_ms, m.collected_at_ms),
            readiness,
            coordinator_metrics: metrics_json,
            circuit_breakers: breakers,
            history_size: self.history.len(),
            max_history_size: self.max_history_size,
            collection_active: self.active,
        }
    }

    /// Records the current concurrency and memory use at `now_ms`, keeps the highest
    /// concurrency seen, and recomputes availability over the uptime in whole seconds: the
    /// share of seconds without an SLA violation (none when violations outnumber seconds);
    /// availability is left as it was while the uptime is under a second.
    pub fn update_resource_usage(&mut self, current_concurrent: u64, memory_bytes: u64, now_ms: u64)
        ensures
            ({
                let (a, b) = (old(self).metrics(), final(self).metrics());
                let up = spec_elapsed(now_ms, old(self).started_at()) / 1000;
                &&& b.current_concurrent_operations == current_concurrent
                &&& b.max_concurrent_operations == (if current_concurrent > a.max_concurrent_operations { current_concurrent } else { a.max_concurrent_operations })
                &&& b.memory_usage_bytes == memory_bytes
                &&& b.collected_at_ms == now_ms
                &&& b.availability == (if up > 0 {
                    (if up >= a.sla_violations { ((up - a.sla_violations) * 10000 / (up as int)) as u32 } else { 0u32 })
                } else {
                    a.availability
                })
                &&& b.total_operations == a.total_operations && b.successful_operations == a.successful_operations
                &&& b.failed_operations == a.failed_operations && b.sla_violations == a.sla_violations
                &&& b.total_operation_duration_ms == a.total_operation_duration_ms
                &&& b.max_operation_duration_ms == a.max_operation_duration_ms
                &&& b.min_operation_duration_ms == a.min_operation_duration_ms
                &&& b.uptime_seconds == a.uptime_seconds
                &&& b.coordinator_metrics == a.coordinator_metrics
                &&& b.circuit_breaker_trips == a.circuit_breaker_trips
            }),
            final(self).snapshots() == old(self).snapshots(),
            final(self).history_limit() == old(self).history_limit(),
            final(self).breakers() == old(self).breakers(),
            final(self).cached() == old(self).cached(),
            final(self).is_on() == old(self).is_on(),
            final(self).started_at() == old(self).started_at(),
    {
        self.current.current_concurrent_operations = current_concurrent;
        if current_concurrent > self.current.max_concurrent_operations {
            self.current.max_concurrent_operations = current_concurrent;
        }
        self.current.memory_usage_bytes = memory_bytes;
        self.current.collected_at_ms = now_ms;
        let up = elapsed_ms(now_ms, self.start_time_ms) / 1000;
        if up > 0 {
            let v = self.current.sla_violations;
            if up >= v {
                let share = (up - v) as u128 * 10000 / up as u128;
                proof {
                    assert((up - v) * 10000 / (up as int) <= 10000) by (nonlinear_arith)
                        requires up > 0, v <= up;
                }
                self.current.availability = share as u32;
            } else {
                self.current.availability = 0;
            }
        }
    }

    /// Records one SLA violation (of `coordinator_name`; the count is kept over all).
    pub fn record_sla_violation(&mut self, coordinator_name: &str)
        ensures
            final(self).metrics().sla_violations == bump(old(self).metrics().sla_violations),
            final(self).metrics() == (OrchestrationMetrics { sla_violations: final(self).metrics().sla_violations, ..old(self).metrics() }),
            final(self).snapshots() == old(self).snapshots(),
            final(self).history_limit() == old(self).history_limit(),
            final(self).breakers() == old(self).breakers(),
            final(self).cached() == old(self).cached(),
            final(self).is_on() == old(self).is_on(),
            final(self).started_at() == old(self).started_at(),
    {
        self.current.sla_violations = bump_exec(self.current.sla_violations);
    }

    /// Saves a snapshot of the current metrics in the history, dropping the oldest snapshot
    /// when the history is full.
    pub fn save_to_history(&mut self)
        requires
            old(self).wf(),
            old(self).history_limit() > 0,
        ensures
            final(self).wf(),
            final(self).snapshots().len() > 0,
            same_counters(final(self).snapshots().last(), old(self).metrics()),
            final(self).snapshots().drop_last() == (if old(self).snapshots().len() >= old(self).history_limit() {
                old(self).snapshots().drop_first()
            } else {
                old(self).snapshots()
            }),
            final(self).metrics() == old(self).metrics(),
            final(self).history_limit() == old(self).history_limit(),
            final(self).breakers() == old(self).breakers(),
            final(self).cached() == old(self).cached(),
            final(self).is_on() == old(self).is_on(),
            final(self).started_at() == old(self).started_at(),
    {
        let snapshot = self.current.duplicate();
        if self.history.len() >= self.max_history_size {
            self.history.remove(0);
        }
        let ghost before = self.history@;
        self.history.push(snapshot);
        proof {
            assert(self.history@.drop_last() =~= before);
        }
    }

    /// Copies of the saved snapshots, oldest first.
    pub fn get_metrics_history(&self) -> (r: Vec<OrchestrationMetrics>)
        ensures
            r@.len() == self.snapshots().len(),
            forall|k: int| 0 <= k < r@.len() ==> same_counters(#[trigger] r@[k], self.snapshots()[k]),
    {
        let mut out: Vec<OrchestrationMetrics> = Vec::new();
        let mut i: usize = 0;
        while i < self.history.len()
            invariant
                i <= self.history@.len(),
                out@.len() == i,
                forall|k: int| 0 <= k < i ==> same_counters(#[trigger] out@[k], self.history@[k]),
            decreases self.history@.len() - i,
        {
            out.push(self.history[i].duplicate());
            i = i + 1;
        }
        out
    }

    /// Stops the collector: it becomes inactive, a final snapshot is saved and the cache is
    /// emptied.
    pub fn shutdown(&mut self)
        requires
            old(self).wf(),
            old(self).history_limit() > 0,
        ensures
            final(self).wf(),
            !final(self).is_on(),
            final(self).cached().len() == 0,
            final(self).snapshots().len() > 0,
            same_counters(final(self).snapshots().last(), old(self).metrics()),
            final(self).snapshots().drop_last() == (if old(self).snapshots().len() >= old(self).history_limit() {
                old(self).snapshots().drop_first()
            } else {
                old(self).snapshots()
            }),
            final(self).metrics() == old(self).metrics(),
            final(self).breakers() == old(self).breakers(),
    {
        self.active = false;
        self.save_to_history();
        self.cache = Vec::new();
    }

    /// The report cached under `key` at `now_ms`, if it was rendered less than the cache's
    /// time to live ago.
    pub fn get_cached_metrics(&self, key: &str, now_ms: u64) -> (r: Option<String>)
        ensures
            match value_of(self.cached(), key@) {
                Some((text, at)) => if spec_elapsed(now_ms, at) < self.cache_ttl() {
                    r matches Some(t) && t@ == text@
                } else {
                    r is None
                },
                None => r is None,
            },
    {
        match find_key(&self.cache, key) {
            Some(i) => {
                proof { lemma_value_at_first(self.cache@, i as int, key@); }
                let (text, at) = (&self.cache[i].1.0, self.cache[i].1.1);
                if elapsed_ms(now_ms, at) < self.cache_ttl_ms {
                    Some(text.clone())
                } else {
                    None
                }
            },
            None => {
                proof { lemma_value_absent(self.cache@, key@); }
                None
            },
        }
    }

    /// Caches the rendered report `text` under `key` at `now_ms`.
    pub fn cache_metrics(&mut self, key: &str, text: String, now_ms: u64)
        ensures
            value_of(final(self).cached(), key@) matches Some((t, at)) && t@ == text@ && at == now_ms,
            forall|k: Seq<char>| k != key@ ==> #[trigger] value_of(final(self).cached(), k) == value_of(old(self).cached(), k),
            final(self).metrics() == old(self).metrics(),
            final(self).snapshots() == old(self).snapshots(),
            final(self).history_limit() == old(self).history_limit(),
            final(self).breakers() == old(self).breakers(),
            final(self).is_on() == old(self).is_on(),
            final(self).started_at() == old(self).started_at(),
            final(self).cache_ttl() == old(self).cache_ttl(),
    {
        let ghost table = self.cache@;
        let p = (key.to_owned(), (text, now_ms));
        match find_key(&self.cache, key) {
            Some(i) => {
                proof {
                    assert forall|k: Seq<char>| #[trigger] value_of(table.update(i as int, p), k)
                        == (if k == p.0@ { Some(p.1) } else { value_of(table, k) }) by {
                        lemma_value_update(table, i as int, p, k);
                    }
                }
                self.cache.set(i, p);
            },
            None => {
                proof {
                    lemma_value_absent(table, key@);
                    assert forall|k: Seq<char>| #[trigger] value_of(table.push(p), k)
                        == (match value_of(table, k) {
                            Some(v) => Some(v),
                            None => if p.0@ == k { Some(p.1) } else { None },
                        }) by {
                        lemma_value_push(table, p, k);
                    }
                }
                self.cache.push(p);
            },
        }
    }

    /// Empties the cache.
    pub fn clear_cache(&mut self)
        ensures
            final(self).cached().len() == 0,
            final(self).metrics() == old(self).metrics(),
            final(self).snapshots() == old(self).snapshots(),
            final(self).history_limit() == old(self).history_limit(),
            final(self).breakers() == old(self).breakers(),
            final(self).is_on() == old(self).is_on(),
            final(self).started_at() == old(self).started_at(),
    {
        self.cache = Vec::new();
    }

    /// Each circuit breaker's state, in order of first appearance, and how many are in each
    /// state.
    pub fn summarize_circuit_breakers(&self) -> (r: CircuitBreakerSummary)
        ensures
            r.individual_states@.len() == self.breakers().len(),
            forall|k: int| 0 <= k < r.individual_states@.len() ==> (#[trigger] r.individual_states@[k]).0@ == self.breakers()[k].0@
                && r.individual_states@[k].1 == self.breakers()[k].1.status,
            r.open == count_status(self.breakers(), CircuitBreakerStatus::Open),
            r.half_open == count_status(self.breakers(), CircuitBreakerStatus::HalfOpen),
            r.closed == count_status(self.breakers(), CircuitBreakerStatus::Closed),
            r.total == self.breakers().len(),
            r.open + r.half_open + r.closed == r.total,
    {
        let b = &self.circuit_breakers;
        let mut states: Vec<(String, CircuitBreakerStatus)> = Vec::new();
        let mut open: usize = 0;
        let mut half_open: usize = 0;
        let mut closed: usize = 0;
        let mut i: usize = 0;
        while i < b.len()
            invariant
                i <= b@.len(),
                states@.len() == i,
                forall|k: int| 0 <= k < i ==> (#[trigger] states@[k]).0@ == b@[k].0@ && states@[k].1 == b@[k].1.status,
                open == count_status(b@.take(i as int), CircuitBreakerStatus::Open),
                half_open == count_status(b@.take(i as int), CircuitBreakerStatus::HalfOpen),
                closed == count_status(b@.take(i as int), CircuitBreakerStatus::Closed),
                open + half_open + closed == i,
            decreases b@.len() - i,
        {
            proof { assert(b@.take(i + 1).drop_last() =~= b@.take(i as int)); }
            let st = b[i].1.status;
            match st {
                CircuitBreakerStatus::Open => { open = open + 1; },
                CircuitBreakerStatus::HalfOpen => { half_open = half_open + 1; },
                CircuitBreakerStatus::Closed => { closed = closed + 1; },
            }
            states.push((b[i].0.clone(), st));
            i = i + 1;
        }
        proof { assert(b@.take(b@.len() as int) =~= b@); }
        CircuitBreakerSummary { individual_states: states, open, half_open, closed, total: b.len() }
    }

    /// Statistics of the snapshots saved within the last `window_minutes` minutes before
    /// `now_ms` (all snapshots since the start when the window reaches back further).
    pub fn get_aggregated_stats(&self, window_minutes: u32, now_ms: u64) -> (r: AggregatedStats)
        ensures
            r == spec_aggregated(self.snapshots(), window_cutoff(now_ms, window_minutes, self.started_at()), window_minutes),
    {
        if self.history.len() == 0 {
            return AggregatedStats::NoHistory { window_minutes };
        }
        let window_ms: u64 = window_minutes as u64 * 60_000;
        let cutoff = if now_ms >= window_ms { now_ms - window_ms } else { self.start_time_ms };
        let h = &self.history;
        let mut count: usize = 0;
        let mut avg_sum: u128 = 0;
        let mut max_conc: u64 = 0;
        let mut last: Option<usize> = None;
        let mut i: usize = 0;
        while i < h.len()
            invariant
                i <= h@.len(),
                h@.len() > 0,
                cutoff == window_cutoff(now_ms, window_minutes, self.start_time_ms),
                count == in_window_count(h@.take(i as int), cutoff),
                avg_sum == in_window_avg_sum(h@.take(i as int), cutoff),
                max_conc == in_window_max_conc(h@.take(i as int), cutoff),
                count <= i,
                match last {
                    Some(j) => j < i && last_in_window(h@.take(i as int), cutoff) == Some(j as int),
                    None => last_in_window(h@.take(i as int), cutoff) is None,
                },
            decreases h@.len() - i,
        {
            proof {
                assert(h@.take(i + 1).drop_last() =~= h@.take(i as int));
                assert(h@.take(i + 1).last() == h@[i as int]);
            }
            let m = &h[i];
            if m.collected_at_ms >= cutoff {
                count = count + 1;
                let a = m.avg_operation_duration_ms();
                avg_sum = avg_sum.saturating_add(a);
                if m.max_concurrent_operations > max_conc {
                    max_conc = m.max_concurrent_operations;
                }
                last = Some(i);
            }
            i = i + 1;
        }
        proof {
            assert(h@.take(h@.len() as int) =~= h@);
            lemma_last_counts(h@, cutoff);
        }
        match last {
            None => AggregatedStats::NoRecentMetrics { window_minutes },
            Some(j) => AggregatedStats::Window {
                window_minutes,
                samples_count: count,
                total_operations: h[j].total_operations,
                successful_operations: h[j].successful_operations,
                avg_operation_duration_ms: avg_sum / count as u128,
                max_concurrent_operations: max_conc,
                sla_violations: h[j].sla_violations,
            },
        }
    }

    /// Analyses the current metrics at `now_ms`: a mean operation above 1 s suggests a larger
    /// thread pool, more than 100 concurrent operations suggest throttling, a success rate
    /// under 95 % suggests checking the circuit breakers, and memory use above 1 GB turns on
    /// more aggressive garbage collection.
    pub fn run_adaptive_optimization(&self, now_ms: u64) -> (r: AdaptiveOptimizationResult)
        ensures
            r.actions_taken@.map_values(|s: String| s@) == spec_optimization_actions(self.metrics()),
            r.recommendations@.map_values(|s: String| s@) == spec_optimization_advice(self.metrics()),
            r.metrics_analyzed,
            r.timestamp_ms == now_ms,
    {
        let m = &self.current;
        let mut actions: Vec<String> = Vec::new();
        let mut recs: Vec<String> = Vec::new();
        let slow = m.total_operation_duration_ms > 1000 * (m.total_operations as u128);
        if slow {
            recs.push("Рассмотреть увеличение размера thread pool".to_owned());
        }
        if m.current_concurrent_operations > 100 {
            recs.push("Включить throttling для защиты от перегрузки".to_owned());
        }
        if m.memory_usage_bytes > 1_000_000_000 {
            actions.push("Включена более агрессивная сборка мусора".to_owned());
        }
        let low_success = m.total_operations > 0 && 100 * (m.successful_operations as u128) < 95 * (m.total_operations as u128);
        if low_success {
            recs.push("Проверить состояние Circuit Breakers".to_owned());
        }
        proof {
            assert(actions@.map_values(|s: String| s@) =~= spec_optimization_actions(*m));
            assert(recs@.map_values(|s: String| s@) =~= spec_optimization_advice(*m));
        }
        AdaptiveOptimizationResult { actions_taken: actions, recommendations: recs, metrics_analyzed: true, timestamp_ms: now_ms }
    }
}

/// How many breakers are in `st`.
pub open spec fn count_status(s: Seq<(String, CircuitBreakerMetric)>, st: CircuitBreakerStatus) -> nat
    decreases s.len(),
{
    if s.len() == 0 { 0 } else { count_status(s.drop_last(), st) + if s.last().1.status == st { 1nat } else { 0nat } }
}

/// The start of the window: `window_minutes` before `now`, or the start of the collector
/// when that would be before the clock's zero.
pub open spec fn window_cutoff(now: u64, window_minutes: u32, start: u64) -> u64 {
    let w = window_minutes * 60_000;
    if now >= w { (now - w) as u64 } else { start }
}

/// How many snapshots were taken at or after `cutoff`.
pub open spec fn in_window_count(s: Seq<OrchestrationMetrics>, cutoff: u64) -> nat
    decreases s.len(),
{
    if s.len() == 0 { 0 } else { in_window_count(s.drop_last(), cutoff) + if s.last().collected_at_ms >= cutoff { 1nat } else { 0nat } }
}

/// Sum of the mean durations of the snapshots taken at or after `cutoff`, saturating at
/// `u128::MAX`.
pub open spec fn in_window_avg_sum(s: Seq<OrchestrationMetrics>, cutoff: u64) -> u128
    decreases s.len(),
{
    if s.len() == 0 {
        0
    } else {
        let rest = in_window_avg_sum(s.drop_last(), cutoff);
        if s.last().collected_at_ms >= cutoff { rest.saturating_add(spec_avg_duration(s.last()) as u128) } else { rest }
    }
}

/// Highest concurrency of the snapshots taken at or after `cutoff` (0 when none).
pub open spec fn in_window_max_conc(s: Seq<OrchestrationMetrics>, cutoff: u64) -> u64
    decreases s.len(),
{
    if s.len() == 0 {
        0
    } else {
        let rest = in_window_max_conc(s.drop_last(), cutoff);
        if s.last().collected_at_ms >= cutoff && s.last().max_concurrent_operations > rest { s.last().max_concurrent_operations } else { rest }
    }
}

/// The position of the latest snapshot taken at or after `cutoff`.
pub open spec fn last_in_window(s: Seq<OrchestrationMetrics>, cutoff: u64) -> Option<int>
    decreases s.len(),
{
    if s.len() == 0 {
        None
    } else if s.last().collected_at_ms >= cutoff {
        Some(s.len() - 1)
    } else {
        last_in_window(s.drop_last(), cutoff)
    }
}

proof fn lemma_last_counts(s: Seq<OrchestrationMetrics>, cutoff: u64)
    ensures
        last_in_window(s, cutoff) is Some ==> in_window_count(s, cutoff) > 0,
        last_in_window(s, cutoff) matches Some(j) ==> 0 <= j < s.len(),
    decreases s.len(),
{
    if s.len() > 0 {
        lemma_last_counts(s.drop_last(), cutoff);
    }
}

/// The statistics of the snapshots `s` within the window starting at `cutoff`.
pub open spec fn spec_aggregated(s: Seq<OrchestrationMetrics>, cutoff: u64, window_minutes: u32) -> AggregatedStats {
    if s.len() == 0 {
        AggregatedStats::NoHistory { window_minutes }
    } else {
        match last_in_window(s, cutoff) {
            None => AggregatedStats::NoRecentMetrics { window_minutes },
            Some(j) => AggregatedStats::Window {
                window_minutes,
                samples_count: in_window_count(s, cutoff) as usize,
                total_operations: s[j].total_operations,
                successful_operations: s[j].successful_operations,
                avg_operation_duration_ms: (in_window_avg_sum(s, cutoff) as int / in_window_count(s, cutoff) as int) as u128,
                max_concurrent_operations: in_window_max_conc(s, cutoff),
                sla_violations: s[j].sla_violations,
            },
        }
    }
}

/// What the optimization pass does by itself.
pub open spec fn spec_optimization_actions(m: OrchestrationMetrics) -> Seq<Seq<char>> {
    if m.memory_usage_bytes > 1_000_000_000 { seq!["Включена более агрессивная сборка мусора"@] } else { Seq::empty() }
}

/// What the optimization pass recommends, in order.
pub open spec fn spec_optimization_advice(m: OrchestrationMetrics) -> Seq<Seq<char>> {
    (if m.total_operation_duration_ms > 1000 * m.total_operations { seq!["Рассмотреть увеличение размера thread pool"@] } else { Seq::empty() })
        + (if m.current_concurrent_operations > 100 { seq!["Включить throttling для защиты от перегрузки"@] } else { Seq::empty() })
        + (if m.total_operations > 0 && 100 * m.successful_operations < 95 * m.total_operations {
            seq!["Проверить состояние Circuit Breakers"@]
        } else {
            Seq::empty()
        })
}

} // verus!
