//! The health manager: monitored components with their failure streaks, alerts, a history
//! of system health checks and SLA figures.
//!
//! Querying the system's health monitor and running the periodic loops happen outside this
//! library; each step here takes what the monitor reported and the current time in
//! milliseconds. Shares are kept in hundredths of a percent and averages are rounded down.

use vstd::prelude::*;
use vstd::string::StringExecFns;

use crate::clock::{elapsed_ms, spec_elapsed};
use crate::counters::{bump, bump_exec};
use crate::keyed::{find_key, first_at, lemma_value_absent, lemma_value_at_first, lemma_value_push, lemma_value_update, value_of};
use crate::text::{decimal, push_decimal};

verus! {

/// How a duration of `secs` seconds is shown: seconds under a minute, minutes and seconds
/// under an hour, hours and minutes beyond.
pub open spec fn duration_text(secs: nat) -> Seq<char> {
    if secs < 60 {
        decimal(secs) + "s"@
    } else if secs < 3600 {
        decimal(secs / 60) + "m "@ + decimal(secs % 60) + "s"@
    } else {
        decimal(secs / 3600) + "h "@ + decimal((secs % 3600) / 60) + "m"@
    }
}

/// Shows a duration of `secs` seconds.
pub fn format_duration(secs: u64) -> (s: String)
    ensures
        s@ == duration_text(secs as nat),
{
    proof {
        reveal_strlit("s");
        reveal_strlit("m ");
        reveal_strlit("h ");
        reveal_strlit("m");
    }
    let mut s = String::new();
    if secs < 60 {
        push_decimal(&mut s, secs);
        s.append("s");
    } else if secs < 3600 {
        push_decimal(&mut s, secs / 60);
        s.append("m ");
        push_decimal(&mut s, secs % 60);
        s.append("s");
    } else {
        push_decimal(&mut s, secs / 3600);
        s.append("h ");
        push_decimal(&mut s, (secs % 3600) / 60);
        s.append("m");
    }
    proof {
        assert(s@ =~= duration_text(secs as nat));
    }
    s
}

/// Health of a component as the system monitor reports it.
#[derive(Debug, Clone, Copy, PartialEq, Eq, Structural)]
pub enum ComponentStatus {
    Healthy,
    Degraded,
    Unhealthy,
}

/// The name of a component status, as printed.
pub open spec fn status_name(s: ComponentStatus) -> Seq<char> {
    match s {
        ComponentStatus::Healthy => "Healthy"@,
        ComponentStatus::Degraded => "Degraded"@,
        ComponentStatus::Unhealthy => "Unhealthy"@,
    }
}

impl ComponentStatus {
    /// The name of the status.
    pub fn name(&self) -> (s: &'static str)
        ensures
            s@ == status_name(*self),
    {
        proof {
            reveal_strlit("Healthy");
            reveal_strlit("Degraded");
            reveal_strlit("Unhealthy");
        }
        match self {
            ComponentStatus::Healthy => "Healthy",
            ComponentStatus::Degraded => "Degraded",
            ComponentStatus::Unhealthy => "Unhealthy",
        }
    }
}

/// Severity of an alert.
#[derive(Debug, Clone, Copy, PartialEq, Eq, Structural)]
pub enum AlertLevel {
    Info,
    Warning,
    Critical,
}

/// The name of an alert level, as printed.
pub open spec fn level_name(l: AlertLevel) -> Seq<char> {
    match l {
        AlertLevel::Info => "Info"@,
        AlertLevel::Warning => "Warning"@,
        AlertLevel::Critical => "Critical"@,
    }
}

impl AlertLevel {
    /// The name of the level.
    pub fn name(&self) -> (s: &'static str)
        ensures
            s@ == level_name(*self),
    {
        proof {
            reveal_strlit("Info");
            reveal_strlit("Warning");
            reveal_strlit("Critical");
        }
        match self {
            AlertLevel::Info => "Info",
            AlertLevel::Warning => "Warning",
            AlertLevel::Critical => "Critical",
        }
    }
}

/// An alert about a component.
#[derive(Debug)]
pub struct Alert {
    pub id: String,
    pub component: String,
    pub level: AlertLevel,
    pub message: String,
    pub timestamp_ms: u64,
    pub resolved: bool,
}

/// What is known of a monitored component.
#[derive(Debug, Clone, Copy, PartialEq, Eq, Structural)]
pub struct ComponentHealth {
    pub status: ComponentStatus,
    pub last_check_ms: u64,
    pub check_interval_ms: u64,
    pub consecutive_failures: u32,
    pub total_checks: u64,
    pub successful_checks: u64,
}

/// One system health check.
#[derive(Debug, Clone, Copy, PartialEq, Eq, Structural)]
pub struct HealthCheckResult {
    pub timestamp_ms: u64,
    pub overall_healthy: bool,
    pub component_count: usize,
    pub healthy_components: usize,
    pub check_duration_ms: u64,
}

/// Figures of the health checks.
#[derive(Debug, Clone, Copy, PartialEq, Eq, Structural)]
pub struct HealthMetrics {
    pub total_checks: u64,
    pub successful_checks: u64,
    pub failed_checks: u64,
    /// Moving average of the check durations: the first check sets it, each later one weighs
    /// a tenth (rounded down).
    pub avg_check_duration_ms: u64,
    pub uptime_seconds: u64,
    pub last_check_ms: Option<u64>,
}

/// SLA figures over the history of checks (shares in hundredths of a percent).
#[derive(Debug, Clone, Copy, PartialEq, Eq, Structural)]
pub struct SlaMetrics {
    pub availability: u64,
    pub avg_response_time_ms: u64,
    pub error_rate: u64,
    pub sla_violations: u64,
}

/// What the system monitor reported: whether the system as a whole is healthy and each
/// component's status.
#[derive(Debug)]
pub struct SystemReport {
    pub overall_healthy: bool,
    pub components: Vec<(String, ComponentStatus)>,
}

/// The figures of a component after a check reporting `st` at `now`.
pub open spec fn checked(c: ComponentHealth, st: ComponentStatus, now: u64) -> ComponentHealth {
    let healthy = st == ComponentStatus::Healthy;
    ComponentHealth {
        status: st,
        last_check_ms: now,
        total_checks: bump(c.total_checks),
        successful_checks: if healthy { bump(c.successful_checks) } else { c.successful_checks },
        consecutive_failures: if healthy { 0 } else if c.consecutive_failures < u32::MAX { (c.consecutive_failures + 1) as u32 } else { 0 },
        ..c
    }
}

/// The alert a failed check of a component raises, given its new failure streak `n`: a
/// critical one from three failures in a row, a warning at the first.
pub open spec fn streak_alert(name: Seq<char>, n: u32) -> Option<(AlertLevel, Seq<char>)> {
    if n >= 3 {
        Some((AlertLevel::Critical, "Компонент "@ + name + " недоступен ("@ + decimal(n as nat) + " последовательных ошибок)"@))
    } else if n == 1 {
        Some((AlertLevel::Warning, "Компонент "@ + name + " показывает проблемы"@))
    } else {
        None
    }
}

/// An alert as plain values: id, component, level, message, time, whether resolved.
pub type AlertView = (Seq<char>, Seq<char>, AlertLevel, Seq<char>, u64, bool);

/// The plain values of an alert.
pub open spec fn alert_view(a: Alert) -> AlertView {
    (a.id@, a.component@, a.level, a.message@, a.timestamp_ms, a.resolved)
}

/// The plain values of each alert, in order.
pub open spec fn alerts_view(s: Seq<Alert>) -> Seq<AlertView> {
    s.map_values(|a: Alert| alert_view(a))
}

/// `s` with `x` appended, keeping the latest hundred.
pub open spec fn push_capped(s: Seq<AlertView>, x: AlertView) -> Seq<AlertView> {
    if s.len() + 1 > 100 { s.push(x).drop_first() } else { s.push(x) }
}

/// The open alert raised at `now` about `component`.
pub open spec fn new_alert(component: Seq<char>, level: AlertLevel, message: Seq<char>, now: u64) -> AlertView {
    ("alert_"@ + decimal(now as nat), component, level, message, now, false)
}

/// The alert a check of `name` reporting `st` raises, when `c` is what was known of it.
pub open spec fn check_alert(name: Seq<char>, c: ComponentHealth, st: ComponentStatus, now: u64) -> Option<(AlertLevel, Seq<char>)> {
    if st == ComponentStatus::Healthy { None } else { streak_alert(name, checked(c, st, now).consecutive_failures) }
}

/// What is known of component `key` after the statuses of `rep` were recorded in order at
/// `now`, starting from the table `comps`; components that are not monitored are skipped.
pub open spec fn status_after(comps: Seq<(String, ComponentHealth)>, rep: Seq<(String, ComponentStatus)>, key: Seq<char>, now: u64) -> Option<ComponentHealth>
    decreases rep.len(),
{
    if rep.len() == 0 {
        value_of(comps, key)
    } else {
        let prev = status_after(comps, rep.drop_last(), key, now);
        if rep.last().0@ == key {
            match prev {
                Some(c) => Some(checked(c, rep.last().1, now)),
                None => None,
            }
        } else {
            prev
        }
    }
}

/// The alerts after the statuses of `rep` were recorded in order at `now`, starting from the
/// alerts `alerts` and the table `comps`: each check of a monitored component raises the
/// alert its failure streak calls for.
pub open spec fn alerts_after(alerts: Seq<AlertView>, comps: Seq<(String, ComponentHealth)>, rep: Seq<(String, ComponentStatus)>, now: u64) -> Seq<AlertView>
    decreases rep.len(),
{
    if rep.len() == 0 {
        alerts
    } else {
        let prev = alerts_after(alerts, comps, rep.drop_last(), now);
        let name = rep.last().0@;
        match status_after(comps, rep.drop_last(), name, now) {
            None => prev,
            Some(c) => match check_alert(name, c, rep.last().1, now) {
                None => prev,
                Some((level, msg)) => push_capped(prev, new_alert(name, level, msg, now)),
            },
        }
    }
}

/// How many reported statuses are healthy.
pub open spec fn healthy_count(s: Seq<(String, ComponentStatus)>) -> nat
    decreases s.len(),
{
    if s.len() == 0 { 0 } else { healthy_count(s.drop_last()) + if s.last().1 == ComponentStatus::Healthy { 1nat } else { 0nat } }
}

/// The moving average after a check of `d` ms.
pub open spec fn next_avg(avg: u64, d: u64) -> u64 {
    if avg == 0 { d } else { ((d + 9 * avg) / 10) as u64 }
}

/// Watches the health of the system's components.
pub struct HealthManager {
    ready: bool,
    health_metrics: HealthMetrics,
    sla_metrics: SlaMetrics,
    /// Alerts, oldest first; at most a hundred are kept.
    active_alerts: Vec<Alert>,
    monitored_components: Vec<(String, ComponentHealth)>,
    /// Checks, oldest first; at most a hundred are kept.
    health_history: Vec<HealthCheckResult>,
}

impl HealthManager {
    pub closed spec fn is_on(&self) -> bool {
        self.ready
    }

    pub closed spec fn figures(&self) -> HealthMetrics {
        self.health_metrics
    }

    pub closed spec fn sla(&self) -> SlaMetrics {
        self.sla_metrics
    }

    pub closed spec fn alerts(&self) -> Seq<Alert> {
        self.active_alerts@
    }

    pub closed spec fn components(&self) -> Seq<(String, ComponentHealth)> {
        self.monitored_components@
    }

    pub closed spec fn history(&self) -> Seq<HealthCheckResult> {
        self.health_history@
    }

    /// How recording a system health check that took `duration_ms` and finished at `now_ms`,
    /// with the monitor's `report` (`None` when it failed), takes this manager to `after`;
    /// `ok` is whether the monitor answered.
    pub open spec fn check_recorded(self, after: Self, report: Option<SystemReport>, duration_ms: u64, now_ms: u64, ok: bool) -> bool {
        &&& ok == report is Some
        &&& after.figures() == (HealthMetrics {
            total_checks: bump(self.figures().total_checks),
            successful_checks: if ok { bump(self.figures().successful_checks) } else { self.figures().successful_checks },
            failed_checks: if ok { self.figures().failed_checks } else { bump(self.figures().failed_checks) },
            avg_check_duration_ms: next_avg(self.figures().avg_check_duration_ms, duration_ms),
            last_check_ms: Some(now_ms),
            ..self.figures()
        })
        &&& match report {
            Some(r) => {
                let pushed = self.history().push(HealthCheckResult {
                    timestamp_ms: now_ms,
                    overall_healthy: r.overall_healthy,
                    component_count: r.components@.len() as usize,
                    healthy_components: healthy_count(r.components@) as usize,
                    check_duration_ms: duration_ms,
                });
                &&& after.history() == (if pushed.len() > 100 { pushed.drop_first() } else { pushed })
                &&& forall|key: Seq<char>| #[trigger] value_of(after.components(), key) == status_after(self.components(), r.components@, key, now_ms)
                &&& alerts_view(after.alerts()) == alerts_after(alerts_view(self.alerts()), self.components(), r.components@, now_ms)
            },
            None => {
                &&& after.history() == self.history()
                &&& after.components() == self.components()
                &&& after.alerts().len() > 0
                &&& after.alerts().last().level == AlertLevel::Critical
                &&& after.alerts().last().component@ == "health_monitor"@
                &&& after.alerts().last().message@ == "Ошибка выполнения проверки здоровья"@
            },
        }
        &&& after.sla() == self.sla()
        &&& after.is_on() == self.is_on()
    }

    /// The lines describing the open alerts at `now_ms`, in order: level, component, message
    /// and age.
    pub open spec fn alert_lines(self, now_ms: u64) -> Seq<Seq<char>> {
        self.alerts().filter(|a: Alert| !a.resolved).map_values(|a: Alert|
            level_name(a.level) + ": "@ + a.component@ + " - "@ + a.message@ + " ("@
                + duration_text((spec_elapsed(now_ms, a.timestamp_ms) / 1000) as nat) + ")"@)
    }

    /// `after` holds every alert of this manager, resolved, and the rest unchanged.
    pub open spec fn alerts_cleared(self, after: Self) -> bool {
        &&& after.alerts().len() == self.alerts().len()
        &&& forall|k: int| 0 <= k < after.alerts().len() ==> {
            let (a, o) = (#[trigger] after.alerts()[k], self.alerts()[k]);
            a.resolved && a.id == o.id && a.component == o.component && a.level == o.level
                && a.message == o.message && a.timestamp_ms == o.timestamp_ms
        }
        &&& after.components() == self.components()
        &&& after.history() == self.history()
        &&& after.figures() == self.figures()
        &&& after.sla() == self.sla()
    }

    /// At most a hundred alerts and a hundred checks are kept.
    pub open spec fn wf(&self) -> bool {
        self.alerts().len() <= 100 && self.history().len() <= 100
    }

    /// A manager with no components, alerts or checks, not ready.
    pub fn new() -> (m: Self)
        ensures
            m.wf(),
            !m.is_on(),
            m.figures() == (HealthMetrics {
                total_checks: 0,
                successful_checks: 0,
                failed_checks: 0,
                avg_check_duration_ms: 0,
                uptime_seconds: 0,
                last_check_ms: None,
            }),
            m.sla() == (SlaMetrics { availability: 0, avg_response_time_ms: 0, error_rate: 0, sla_violations: 0 }),
            m.alerts().len() == 0,
            m.components().len() == 0,
            m.history().len() == 0,
    {
        HealthManager {
            ready: false,
            health_metrics: HealthMetrics {
                total_checks: 0,
                successful_checks: 0,
                failed_checks: 0,
                avg_check_duration_ms: 0,
                uptime_seconds: 0,
                last_check_ms: None,
            },
            sla_metrics: SlaMetrics { availability: 0, avg_response_time_ms: 0, error_rate: 0, sla_violations: 0 },
            active_alerts: Vec::new(),
            monitored_components: Vec::new(),
            health_history: Vec::new(),
        }
    }

    /// Whether the manager is ready.
    pub fn is_ready(&self) -> (b: bool)
        ensures
            b == self.is_on(),
    {
        self.ready
    }

    /// How many alerts are kept.
    pub fn alerts_len(&self) -> (n: usize)
        ensures
            n == self.alerts().len(),
    {
        self.active_alerts.len()
    }

    /// How many checks the history holds.
    pub fn history_len(&self) -> (n: usize)
        ensures
            n == self.history().len(),
    {
        self.health_history.len()
    }

    /// The figures of the health checks.
    pub fn health_metrics(&self) -> (m: HealthMetrics)
        ensures
            m == self.figures(),
    {
        self.health_metrics
    }

    /// The SLA figures.
    pub fn sla_metrics(&self) -> (m: SlaMetrics)
        ensures
            m == self.sla(),
    {
        self.sla_metrics
    }

    /// Marks the manager ready or not.
    pub fn set_ready(&mut self, ready: bool)
        ensures
            final(self).is_on() == ready,
            final(self).figures() == old(self).figures(),
            final(self).sla() == old(self).sla(),
            final(self).alerts() == old(self).alerts(),
            final(self).components() == old(self).components(),
            final(self).history() == old(self).history(),
    {
        self.ready = ready;
    }

    /// Starts monitoring `name`, checked every `check_interval_ms`, as healthy with no checks
    /// yet (replacing what was known of it).
    pub fn register_component(&mut self, name: &str, check_interval_ms: u64, now_ms: u64)
        ensures
            value_of(final(self).components(), name@) == Some(ComponentHealth {
                status: ComponentStatus::Healthy,
                last_check_ms: now_ms,
                check_interval_ms,
                consecutive_failures: 0,
                total_checks: 0,
                successful_checks: 0,
            }),
            forall|k: Seq<char>| k != name@ ==> #[trigger] value_of(final(self).components(), k) == value_of(old(self).components(), k),
            final(self).alerts() == old(self).alerts(),
            final(self).history() == old(self).history(),
            final(self).figures() == old(self).figures(),
            final(self).sla() == old(self).sla(),
            final(self).is_on() == old(self).is_on(),
    {
        let c = ComponentHealth {
            status: ComponentStatus::Healthy,
            last_check_ms: now_ms,
            check_interval_ms,
            consecutive_failures: 0,
            total_checks: 0,
            successful_checks: 0,
        };
        let ghost table = self.monitored_components@;
        let p = (name.to_owned(), c);
        match find_key(&self.monitored_components, name) {
            Some(i) => {
                proof {
                    assert forall|k: Seq<char>| #[trigger] value_of(table.update(i as int, p), k)
                        == (if k == p.0@ { Some(p.1) } else { value_of(table, k) }) by {
                        lemma_value_update(table, i as int, p, k);
                    }
                }
                self.monitored_components.set(i, p);
            },
            None => {
                proof {
                    lemma_value_absent(table, name@);
                    assert forall|k: Seq<char>| #[trigger] value_of(table.push(p), k)
                        == (match value_of(table, k) {
                            Some(v) => Some(v),
                            None => if p.0@ == k { Some(p.1) } else { None },
                        }) by {
                        lemma_value_push(table, p, k);
                    }
                }
                self.monitored_components.push(p);
            },
        }
    }

    /// Registers the production components at `now_ms`: the vector store and the embedding
    /// service every 30 s, the search coordinator and the cache every minute, the GPU
    /// processor every two minutes.
    pub fn setup_production_monitoring(&mut self, now_ms: u64)
        ensures
            value_of(final(self).components(), "vector_store"@) matches Some(c) && c.check_interval_ms == 30_000,
            value_of(final(self).components(), "embedding_service"@) matches Some(c) && c.check_interval_ms == 30_000,
            value_of(final(self).components(), "search_coordinator"@) matches Some(c) && c.check_interval_ms == 60_000,
            value_of(final(self).components(), "cache_system"@) matches Some(c) && c.check_interval_ms == 60_000,
            value_of(final(self).components(), "gpu_processor"@) matches Some(c) && c.check_interval_ms == 120_000,
            final(self).alerts() == old(self).alerts(),
            final(self).history() == old(self).history(),
            final(self).figures() == old(self).figures(),
    {
        proof {
            reveal_strlit("vector_store");
            reveal_strlit("embedding_service");
            reveal_strlit("search_coordinator");
            reveal_strlit("cache_system");
            reveal_strlit("gpu_processor");
            let names = seq!["vector_store"@, "embedding_service"@, "search_coordinator"@, "cache_system"@, "gpu_processor"@];
            assert forall|a: int, b: int| 0 <= a < 5 && 0 <= b < 5 && a != b implies names[a] != names[b] by {
                assert(names[a][0] != names[b][0]);
            }
            assert(names[0] != names[1] && names[0] != names[2] && names[0] != names[3] && names[0] != names[4]);
            assert(names[1] != names[2] && names[1] != names[3] && names[1] != names[4]);
            assert(names[2] != names[3] && names[2] != names[4] && names[3] != names[4]);
        }
        self.register_component("vector_store", 30_000, now_ms);
        self.register_component("embedding_service", 30_000, now_ms);
        self.register_component("search_coordinator", 60_000, now_ms);
        self.register_component("cache_system", 60_000, now_ms);
        self.register_component("gpu_processor", 120_000, now_ms);
    }

    /// Raises an alert about `component` at `now_ms`, keeping the latest hundred.
    pub fn create_alert(&mut self, component: &str, level: AlertLevel, message: String, now_ms: u64)
        requires
            old(self).wf(),
        ensures
            final(self).wf(),
            ({
                let pushed_len: int = old(self).alerts().len() as int + 1;
                &&& final(self).alerts().len() == (if pushed_len > 100 { pushed_len - 1 } else { pushed_len })
                &&& final(self).alerts().drop_last() == (if pushed_len > 100 { old(self).alerts().drop_first() } else { old(self).alerts() })
            }),
            ({
                let a = final(self).alerts().last();
                &&& a.component@ == component@ && a.level == level && a.message == message
                &&& a.id@ == "alert_"@ + decimal(now_ms as nat)
                &&& a.timestamp_ms == now_ms && !a.resolved
            }),
            alerts_view(final(self).alerts()) == push_capped(alerts_view(old(self).alerts()), new_alert(component@, level, message@, now_ms)),
            final(self).components() == old(self).components(),
            final(self).history() == old(self).history(),
            final(self).figures() == old(self).figures(),
            final(self).sla() == old(self).sla(),
            final(self).is_on() == old(self).is_on(),
    {
        let mut id = String::new();
        id.append("alert_");
        push_decimal(&mut id, now_ms);
        let alert = Alert { id, component: component.to_owned(), level, message, timestamp_ms: now_ms, resolved: false };
        let ghost before = self.active_alerts@;
        self.active_alerts.push(alert);
        proof {
            reveal_strlit("alert_");
        }
        if self.active_alerts.len() > 100 {
            self.active_alerts.remove(0);
            proof {
                assert(self.active_alerts@.drop_last() =~= before.drop_first());
                assert(alerts_view(self.active_alerts@) =~= alerts_view(before).push(new_alert(component@, level, message@, now_ms)).drop_first());
            }
        } else {
            proof {
                assert(self.active_alerts@.drop_last() =~= before);
                assert(alerts_view(self.active_alerts@) =~= alerts_view(before).push(new_alert(component@, level, message@, now_ms)));
            }
        }
    }

    /// Records a check of component `name` that reported `status` at `now_ms` (nothing happens
    /// for a component that is not monitored), raising the alert its failure streak calls for.
    pub fn record_component_status(&mut self, name: &str, status: ComponentStatus, now_ms: u64)
        requires
            old(self).wf(),
        ensures
            final(self).wf(),
            match value_of(old(self).components(), name@) {
                None => final(self).components() == old(self).components() && final(self).alerts() == old(self).alerts(),
                Some(c) => {
                    let c2 = checked(c, status, now_ms);
                    &&& value_of(final(self).components(), name@) == Some(c2)
                    &&& forall|k: Seq<char>| k != name@ ==> #[trigger] value_of(final(self).components(), k) == value_of(old(self).components(), k)
                    &&& match check_alert(name@, c, status, now_ms) {
                        None => final(self).alerts() == old(self).alerts(),
                        Some((level, msg)) => final(self).alerts().len() > 0 && final(self).alerts().last().level == level
                            && final(self).alerts().last().message@ == msg && final(self).alerts().last().component@ == name@
                            && alerts_view(final(self).alerts()) == push_capped(alerts_view(old(self).alerts()), new_alert(name@, level, msg, now_ms)),
                    }
                },
            },
            final(self).history() == old(self).history(),
            final(self).figures() == old(self).figures(),
            final(self).sla() == old(self).sla(),
            final(self).is_on() == old(self).is_on(),
    {
        let ghost table = self.monitored_components@;
        match find_key(&self.monitored_components, name) {
            None => {
                proof { lemma_value_absent(table, name@); }
            },
            Some(i) => {
                proof { lemma_value_at_first(table, i as int, name@); }
                let mut c = self.monitored_components[i].1;
                let healthy = match status {
                    ComponentStatus::Healthy => true,
                    _ => false,
                };
                c.status = status;
                c.last_check_ms = now_ms;
                c.total_checks = bump_exec(c.total_checks);
                if healthy {
                    c.successful_checks = bump_exec(c.successful_checks);
                    c.consecutive_failures = 0;
                } else {
                    c.consecutive_failures = if c.consecutive_failures < u32::MAX { c.consecutive_failures + 1 } else { 0 };
                }
                let p = (name.to_owned(), c);
                proof {
                    assert forall|k: Seq<char>| #[trigger] value_of(table.update(i as int, p), k)
                        == (if k == p.0@ { Some(p.1) } else { value_of(table, k) }) by {
                        lemma_value_update(table, i as int, p, k);
                    }
                }
                self.monitored_components.set(i, p);
                if !healthy {
                    let n = c.consecutive_failures;
                    if n >= 3 {
                        let mut m = String::new();
                        m.append("Компонент ");
                        m.append(name);
                        m.append(" недоступен (");
                        push_decimal(&mut m, n as u64);
                        m.append(" последовательных ошибок)");
                        self.create_alert(name, AlertLevel::Critical, m, now_ms);
                    } else if n == 1 {
                        let mut m = String::new();
                        m.append("Компонент ");
                        m.append(name);
                        m.append(" показывает проблемы");
                        self.create_alert(name, AlertLevel::Warning, m, now_ms);
                    }
                }
            },
        }
    }

    /// Records a system health check that took `duration_ms` and finished at `now_ms`: with a
    /// report, each monitored component's status is recorded, and the check joins the
    /// history (the latest hundred are kept); without one (the monitor failed), a critical
    /// alert is raised. The counters, the moving average of durations and the time of the
    /// last check are updated. Returns whether the monitor answered.
    pub fn run_health_check(&mut self, report: Option<SystemReport>, duration_ms: u64, now_ms: u64) -> (ok: bool)
        requires
            old(self).wf(),
        ensures
            final(self).wf(),
            old(self).figures().total_checks == old(self).figures().successful_checks + old(self).figures().failed_checks
                && old(self).figures().total_checks < u64::MAX
                ==> final(self).figures().total_checks == final(self).figures().successful_checks + final(self).figures().failed_checks,
            old(self).check_recorded(*final(self), report, duration_ms, now_ms, ok),
    {
        let ok = report.is_some();
        self.health_metrics.total_checks = bump_exec(self.health_metrics.total_checks);
        match report {
            Some(r) => {
                self.health_metrics.successful_checks = bump_exec(self.health_metrics.successful_checks);
                let ghost comps = r.components@;
                let mut healthy: usize = 0;
                let mut i: usize = 0;
                while i < r.components.len()
                    invariant
                        i <= r.components@.len(),
                        comps == r.components@,
                        healthy == healthy_count(comps.take(i as int)),
                        healthy <= i,
                        self.wf(),
                        self.health_history@ == old(self).health_history@,
                        self.health_metrics == ({
                            let m = old(self).health_metrics;
                            HealthMetrics { total_checks: bump(m.total_checks), successful_checks: bump(m.successful_checks), ..m }
                        }),
                        self.sla_metrics == old(self).sla_metrics,
                        self.ready == old(self).ready,
                        forall|key: Seq<char>| #[trigger] value_of(self.monitored_components@, key)
                            == status_after(old(self).monitored_components@, comps.take(i as int), key, now_ms),
                        alerts_view(self.active_alerts@)
                            == alerts_after(alerts_view(old(self).active_alerts@), old(self).monitored_components@, comps.take(i as int), now_ms),
                    decreases r.components@.len() - i,
                {
                    proof {
                        assert(comps.take(i + 1).drop_last() =~= comps.take(i as int));
                        assert(comps.take(i + 1).last() == comps[i as int]);
                    }
                    let st = r.components[i].1;
                    if st == ComponentStatus::Healthy {
                        healthy = healthy + 1;
                    }
                    self.record_component_status(r.components[i].0.as_str(), st, now_ms);
                    i = i + 1;
                }
                proof { assert(comps.take(comps.len() as int) =~= comps); }
                let result = HealthCheckResult {
                    timestamp_ms: now_ms,
                    overall_healthy: r.overall_healthy,
                    component_count: r.components.len(),
                    healthy_components: healthy,
                    check_duration_ms: duration_ms,
                };
                let ghost pushed = self.health_history@.push(result);
                self.health_history.push(result);
                if self.health_history.len() > 100 {
                    self.health_history.remove(0);
                    proof { assert(self.health_history@ =~= pushed.drop_first()); }
                }
            },
            None => {
                self.health_metrics.failed_checks = bump_exec(self.health_metrics.failed_checks);
                proof {
                    reveal_strlit("health_monitor");
                }
                self.create_alert("health_monitor", AlertLevel::Critical, "Ошибка выполнения проверки здоровья".to_owned(), now_ms);
            },
        }
        let avg = self.health_metrics.avg_check_duration_ms;
        self.health_metrics.avg_check_duration_ms = if avg == 0 {
            duration_ms
        } else {
            ((duration_ms as u128 + 9 * avg as u128) / 10) as u64
        };
        self.health_metrics.last_check_ms = Some(now_ms);
        ok
    }

    /// Whether `component` is monitored and was last seen healthy.
    pub fn component_health(&self, component: &str) -> (b: bool)
        ensures
            b == (value_of(self.components(), component@) matches Some(c) && c.status == ComponentStatus::Healthy),
    {
        match find_key(&self.monitored_components, component) {
            Some(i) => {
                proof { lemma_value_at_first(self.monitored_components@, i as int, component@); }
                self.monitored_components[i].1.status == ComponentStatus::Healthy
            },
            None => {
                proof { lemma_value_absent(self.monitored_components@, component@); }
                false
            },
        }
    }

    /// Marks every alert resolved.
    pub fn clear_alerts(&mut self)
        ensures
            old(self).alerts_cleared(*final(self)),
    {
        let ghost before = self.active_alerts@;
        let mut i: usize = 0;
        while i < self.active_alerts.len()
            invariant
                i <= self.active_alerts@.len(),
                self.active_alerts@.len() == before.len(),
                forall|k: int| 0 <= k < self.active_alerts@.len() ==> {
                    let (a, o) = (#[trigger] self.active_alerts@[k], before[k]);
                    a.resolved == (k < i || o.resolved) && a.id == o.id && a.component == o.component && a.level == o.level
                        && a.message == o.message && a.timestamp_ms == o.timestamp_ms
                },
                self.monitored_components == old(self).monitored_components,
                self.health_history == old(self).health_history,
                self.health_metrics == old(self).health_metrics,
                self.sla_metrics == old(self).sla_metrics,
            decreases self.active_alerts@.len() - i,
        {
            self.active_alerts[i].resolved = true;
            i = i + 1;
        }
    }

    /// The lines describing the open alerts at `now_ms`, in order: level, component, message
    /// and age.
    pub fn get_alerts(&self, now_ms: u64) -> (r: Vec<String>)
        ensures
            r@.map_values(|s: String| s@) == self.alert_lines(now_ms),
    {
        let al = &self.active_alerts;
        let ghost pred = |a: Alert| !a.resolved;
        let ghost f = |a: Alert| level_name(a.level) + ": "@ + a.component@ + " - "@ + a.message@ + " ("@
            + duration_text((spec_elapsed(now_ms, a.timestamp_ms) / 1000) as nat) + ")"@;
        let mut out: Vec<String> = Vec::new();
        let mut i: usize = 0;
        while i < al.len()
            invariant
                i <= al@.len(),
                pred == (|a: Alert| !a.resolved),
                f == (|a: Alert| level_name(a.level) + ": "@ + a.component@ + " - "@ + a.message@ + " ("@
                    + duration_text((spec_elapsed(now_ms, a.timestamp_ms) / 1000) as nat) + ")"@),
                out@.map_values(|s: String| s@) == al@.take(i as int).filter(pred).map_values(f),
            decreases al@.len() - i,
        {
            let ghost before = out@;
            proof {
                assert(al@.take(i + 1) =~= al@.take(i as int).push(al@[i as int]));
                al@.take(i as int).lemma_filter_push(al@[i as int], pred);
            }
            let a = &al[i];
            if !a.resolved {
                let mut line = String::new();
                line.append(a.level.name());
                line.append(": ");
                line.append(a.component.as_str());
                line.append(" - ");
                line.append(a.message.as_str());
                line.append(" (");
                let age = format_duration(elapsed_ms(now_ms, a.timestamp_ms) / 1000);
                line.append(age.as_str());
                line.append(")");
                out.push(line);
                proof {
                    let ft = al@.take(i as int).filter(pred);
                    assert(out@.map_values(|s: String| s@) =~= before.map_values(|s: String| s@).push(f(al@[i as int])));
                    assert(ft.push(al@[i as int]).map_values(f) =~= ft.map_values(f).push(f(al@[i as int])));
                }
            }
            i = i + 1;
        }
        proof { assert(al@.take(al@.len() as int) =~= al@); }
        out
    }

    /// One tick of the health monitoring loop: the uptime grows by the loop's 30 s.
    pub fn uptime_tick(&mut self)
        ensures
            final(self).figures() == (HealthMetrics {
                uptime_seconds: if old(self).figures().uptime_seconds <= u64::MAX - 30 {
                    (old(self).figures().uptime_seconds + 30) as u64
                } else {
                    u64::MAX
                },
                ..old(self).figures()
            }),
            final(self).alerts() == old(self).alerts(),
            final(self).components() == old(self).components(),
            final(self).history() == old(self).history(),
            final(self).sla() == old(self).sla(),
    {
        self.health_metrics.uptime_seconds = self.health_metrics.uptime_seconds.saturating_add(30);
    }

    /// One tick of the SLA loop: with more than ten checks in the history, availability,
    /// mean response time and error rate are recomputed from it, and a violation is counted
    /// for availability under 99.9 % and for a mean response time over 1 s.
    pub fn sla_tick(&mut self)
        ensures
            ({
                let h = old(self).history();
                let n: int = h.len() as int;
                let good: int = count_healthy_checks(h) as int;
                let total: int = total_duration(h);
                if n > 10 {
                    let v1: u64 = if good * 1000 < 999 * n { 1 } else { 0 };
                    let v2: u64 = if total > 1000 * n { 1 } else { 0 };
                    final(self).sla() == SlaMetrics {
                        availability: (good * 10000 / n) as u64,
                        avg_response_time_ms: (total / n) as u64,
                        error_rate: ((n - good) * 10000 / n) as u64,
                        sla_violations: add_capped(old(self).sla().sla_violations, (v1 + v2) as u64),
                    }
                } else {
                    final(self).sla() == old(self).sla()
                }
            }),
            final(self).alerts() == old(self).alerts(),
            final(self).components() == old(self).components(),
            final(self).history() == old(self).history(),
            final(self).figures() == old(self).figures(),
    {
        let h = &self.health_history;
        let n = h.len();
        if n <= 10 {
            return;
        }
        let mut good: usize = 0;
        let mut total: u128 = 0;
        let mut i: usize = 0;
        while i < n
            invariant
                n == h@.len(),
                i <= n,
                good == count_healthy_checks(h@.take(i as int)),
                total == total_duration(h@.take(i as int)),
                good <= i,
                total <= i * 0xffff_ffff_ffff_ffff,
            decreases n - i,
        {
            proof { assert(h@.take(i + 1).drop_last() =~= h@.take(i as int)); }
            if h[i].overall_healthy {
                good = good + 1;
            }
            total = total + h[i].check_duration_ms as u128;
            i = i + 1;
        }
        proof {
            assert(h@.take(n as int) =~= h@);
            assert(good * 10000 / (n as int) <= 10000) by (nonlinear_arith)
                requires good <= n, n > 0;
            assert((n - good) * 10000 / (n as int) <= 10000) by (nonlinear_arith)
                requires good <= n, n > 0;
            assert(total as int / (n as int) <= 0xffff_ffff_ffff_ffff) by (nonlinear_arith)
                requires total <= n * 0xffff_ffff_ffff_ffff, n > 0;
        }
        let availability = (good as u128 * 10000 / n as u128) as u64;
        let error_rate = ((n - good) as u128 * 10000 / n as u128) as u64;
        let avg = (total / n as u128) as u64;
        let mut v: u64 = 0;
        if (good as u128) * 1000 < 999 * (n as u128) {
            v = v + 1;
        }
        if total > 1000 * (n as u128) {
            v = v + 1;
        }
        let violations = self.sla_metrics.sla_violations.saturating_add(v);
        self.sla_metrics = SlaMetrics { availability, avg_response_time_ms: avg, error_rate, sla_violations: violations };
    }

    /// One tick of the alert processor at `now_ms`: resolved alerts older than an hour are
    /// dropped, the others kept in order. Returns how many open critical alerts remain.
    pub fn alert_processor_tick(&mut self, now_ms: u64) -> (critical: usize)
        requires
            old(self).wf(),
        ensures
            final(self).wf(),
            final(self).alerts() == old(self).alerts().filter(|a: Alert| !(a.resolved && spec_elapsed(now_ms, a.timestamp_ms) > 3_600_000)),
            critical == final(self).alerts().filter(|a: Alert| !a.resolved && a.level == AlertLevel::Critical).len(),
            final(self).components() == old(self).components(),
            final(self).history() == old(self).history(),
            final(self).figures() == old(self).figures(),
            final(self).sla() == old(self).sla(),
    {
        let ghost keep = |a: Alert| !(a.resolved && spec_elapsed(now_ms, a.timestamp_ms) > 3_600_000);
        let ghost all = self.active_alerts@;
        let mut rest: Vec<Alert> = Vec::new();
        std::mem::swap(&mut rest, &mut self.active_alerts);
        let total = rest.len();
        let mut kept: Vec<Alert> = Vec::new();
        let mut i: usize = 0;
        while rest.len() > 0
            invariant
                all.len() == total,
                all.len() <= 100,
                rest@ == all.skip(i as int),
                i <= all.len(),
                keep == (|a: Alert| !(a.resolved && spec_elapsed(now_ms, a.timestamp_ms) > 3_600_000)),
                kept@ == all.take(i as int).filter(keep),
                self.monitored_components == old(self).monitored_components,
                self.health_history == old(self).health_history,
                self.health_metrics == old(self).health_metrics,
                self.sla_metrics == old(self).sla_metrics,
            decreases rest@.len(),
        {
            proof {
                assert(all.skip(i as int)[0] == all[i as int]);
                assert(all.take(i + 1) =~= all.take(i as int).push(all[i as int]));
                all.take(i as int).lemma_filter_push(all[i as int], keep);
            }
            let a = rest.remove(0);
            proof { assert(rest@ =~= all.skip(i + 1)); }
            if !(a.resolved && elapsed_ms(now_ms, a.timestamp_ms) > 3_600_000) {
                kept.push(a);
            }
            i = i + 1;
        }
        proof {
            assert(all.take(i as int) =~= all);
            all.lemma_filter_len(keep);
        }
        self.active_alerts = kept;
        let ghost crit = |a: Alert| !a.resolved && a.level == AlertLevel::Critical;
        let al = &self.active_alerts;
        let mut count: usize = 0;
        let mut j: usize = 0;
        while j < al.len()
            invariant
                j <= al@.len(),
                crit == (|a: Alert| !a.resolved && a.level == AlertLevel::Critical),
                count == al@.take(j as int).filter(crit).len(),
                count <= j,
            decreases al@.len() - j,
        {
            proof {
                assert(al@.take(j + 1) =~= al@.take(j as int).push(al@[j as int]));
                al@.take(j as int).lemma_filter_push(al@[j as int], crit);
            }
            if !al[j].resolved && al[j].level == AlertLevel::Critical {
                count = count + 1;
            }
            j = j + 1;
        }
        proof { assert(al@.take(al@.len() as int) =~= al@); }
        count
    }

    /// How many monitored components were last seen healthy, degraded and unhealthy.
    pub fn component_counts(&self) -> (r: (usize, usize, usize))
        ensures
            r.0 == count_components(self.components(), ComponentStatus::Healthy),
            r.1 == count_components(self.components(), ComponentStatus::Degraded),
            r.2 == count_components(self.components(), ComponentStatus::Unhealthy),
    {
        let c = &self.monitored_components;
        let (mut h, mut d, mut u): (usize, usize, usize) = (0, 0, 0);
        let mut i: usize = 0;
        while i < c.len()
            invariant
                i <= c@.len(),
                h == count_components(c@.take(i as int), ComponentStatus::Healthy),
                d == count_components(c@.take(i as int), ComponentStatus::Degraded),
                u == count_components(c@.take(i as int), ComponentStatus::Unhealthy),
                h + d + u == i,
            decreases c@.len() - i,
        {
            proof { assert(c@.take(i + 1).drop_last() =~= c@.take(i as int)); }
            match c[i].1.status {
                ComponentStatus::Healthy => { h = h + 1; },
                ComponentStatus::Degraded => { d = d + 1; },
                ComponentStatus::Unhealthy => { u = u + 1; },
            }
            i = i + 1;
        }
        proof { assert(c@.take(c@.len() as int) =~= c@); }
        (h, d, u)
    }

    /// Detailed figures of `component` at `now_ms`, if monitored: its status, how long ago it
    /// was checked, and whether that is more than twice its interval.
    pub fn get_component_detailed_stats(&self, component: &str, now_ms: u64) -> (r: Option<ComponentStats>)
        ensures
            match value_of(self.components(), component@) {
                None => r is None,
                Some(c) => r matches Some(s) && s.name@ == component@ && s.status == c.status
                    && s.last_check_text@ == duration_text((spec_elapsed(now_ms, c.last_check_ms) / 1000) as nat)
                    && s.check_interval_seconds == c.check_interval_ms / 1000
                    && s.consecutive_failures == c.consecutive_failures
                    && s.total_checks == c.total_checks && s.successful_checks == c.successful_checks
                    && s.is_overdue == (spec_elapsed(now_ms, c.last_check_ms) > 2 * c.check_interval_ms),
            },
    {
        match find_key(&self.monitored_components, component) {
            Some(i) => {
                proof { lemma_value_at_first(self.monitored_components@, i as int, component@); }
                let c = self.monitored_components[i].1;
                let age = elapsed_ms(now_ms, c.last_check_ms);
                Some(ComponentStats {
                    name: component.to_owned(),
                    status: c.status,
                    last_check_text: format_duration(age / 1000),
                    check_interval_seconds: c.check_interval_ms / 1000,
                    consecutive_failures: c.consecutive_failures,
                    total_checks: c.total_checks,
                    successful_checks: c.successful_checks,
                    is_overdue: (age as u128) > 2 * (c.check_interval_ms as u128),
                })
            },
            None => {
                proof { lemma_value_absent(self.monitored_components@, component@); }
                None
            },
        }
    }
}

/// Detailed figures of a component.
#[derive(Debug)]
pub struct ComponentStats {
    pub name: String,
    pub status: ComponentStatus,
    pub last_check_text: String,
    pub check_interval_seconds: u64,
    pub consecutive_failures: u32,
    pub total_checks: u64,
    pub successful_checks: u64,
    pub is_overdue: bool,
}

/// How many monitored components are in `st`.
pub open spec fn count_components(s: Seq<(String, ComponentHealth)>, st: ComponentStatus) -> nat
    decreases s.len(),
{
    if s.len() == 0 { 0 } else { count_components(s.drop_last(), st) + if s.last().1.status == st { 1nat } else { 0nat } }
}

/// How many checks found the system healthy.
pub open spec fn count_healthy_checks(s: Seq<HealthCheckResult>) -> nat
    decreases s.len(),
{
    if s.len() == 0 { 0 } else { count_healthy_checks(s.drop_last()) + if s.last().overall_healthy { 1nat } else { 0nat } }
}

/// The total duration of the checks.
pub open spec fn total_duration(s: Seq<HealthCheckResult>) -> int
    decreases s.len(),
{
    if s.len() == 0 { 0 } else { total_duration(s.drop_last()) + s.last().check_duration_ms }
}

/// `a + b`, capped at `u64::MAX`.
pub open spec fn add_capped(a: u64, b: u64) -> u64 {
    if a + b > u64::MAX { u64::MAX } else { (a + b) as u64 }
}

} // verus!
