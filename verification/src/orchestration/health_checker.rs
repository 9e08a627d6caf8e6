//! Health checking of the coordinators: scores, levels, system diagnostics and their history.
//!
//! Scores are hundredths of a point on the scale 0 to 100 (so `10000` is a perfect score).
//! Times are milliseconds. Running the checks themselves (with their retries, timeouts and
//! parallel tasks) happens outside this library; the functions here take what the checks
//! reported.

use vstd::prelude::*;
use vstd::string::StringExecFns;

use crate::clock::{elapsed_ms, spec_elapsed};
use crate::counters::{bump, bump_exec, bumped};
use crate::text::{decimal, digit_char, push_decimal};

verus! {

/// Health level of a component, from worst to best.
#[derive(Debug, Clone, Copy, PartialEq, Eq, Structural, PartialOrd, Ord, Hash)]
pub enum HealthLevel {
    Critical,
    Warning,
    Healthy,
    Excellent,
}

/// The rank of a level: Critical < Warning < Healthy < Excellent.
pub open spec fn level_rank(l: HealthLevel) -> int {
    match l {
        HealthLevel::Critical => 0,
        HealthLevel::Warning => 1,
        HealthLevel::Healthy => 2,
        HealthLevel::Excellent => 3,
    }
}

/// The name of a level, as printed.
pub open spec fn level_name(l: HealthLevel) -> Seq<char> {
    match l {
        HealthLevel::Critical => "critical"@,
        HealthLevel::Warning => "warning"@,
        HealthLevel::Healthy => "healthy"@,
        HealthLevel::Excellent => "excellent"@,
    }
}

impl HealthLevel {
    /// The rank of the level (0 for Critical up to 3 for Excellent).
    pub fn rank(&self) -> (r: u8)
        ensures
            r == level_rank(*self),
    {
        match self {
            HealthLevel::Critical => 0,
            HealthLevel::Warning => 1,
            HealthLevel::Healthy => 2,
            HealthLevel::Excellent => 3,
        }
    }

    /// The name of the level.
    pub fn name(&self) -> (s: &'static str)
        ensures
            s@ == level_name(*self),
    {
        proof {
            reveal_strlit("critical");
            reveal_strlit("warning");
            reveal_strlit("healthy");
            reveal_strlit("excellent");
        }
        match self {
            HealthLevel::Critical => "critical",
            HealthLevel::Warning => "warning",
            HealthLevel::Healthy => "healthy",
            HealthLevel::Excellent => "excellent",
        }
    }
}

/// Health of one component.
#[derive(Debug)]
pub struct HealthStatus {
    pub level: HealthLevel,
    /// Score in hundredths of a point (0 to 10000 for scores from 0 to 100).
    pub score: u32,
    pub message: String,
    /// Extra details: a key and the JSON text of its value; a key set twice keeps the later
    /// value.
    pub details: Vec<(String, String)>,
    /// When the check ran (milliseconds).
    pub last_check_ms: u64,
    pub check_duration_ms: u64,
}

/// The details as pairs of character sequences.
pub open spec fn detail_view(d: Seq<(String, String)>) -> Seq<(Seq<char>, Seq<char>)> {
    d.map_values(|p: (String, String)| (p.0@, p.1@))
}

/// `a` and `b` hold the same status (strings by content).
pub open spec fn same_status(a: HealthStatus, b: HealthStatus) -> bool {
    &&& a.level == b.level
    &&& a.score == b.score
    &&& a.message@ == b.message@
    &&& detail_view(a.details@) == detail_view(b.details@)
    &&& a.last_check_ms == b.last_check_ms
    &&& a.check_duration_ms == b.check_duration_ms
}

impl HealthStatus {
    /// A status with `level`, `score` and `message`, checked at `now_ms`, with no details and
    /// a check duration of zero.
    pub fn new(level: HealthLevel, score: u32, message: String, now_ms: u64) -> (s: Self)
        ensures
            s.level == level,
            s.score == score,
            s.message == message,
            s.details@.len() == 0,
            s.last_check_ms == now_ms,
            s.check_duration_ms == 0,
    {
        HealthStatus { level, score, message, details: Vec::new(), last_check_ms: now_ms, check_duration_ms: 0 }
    }

    /// The same status with detail `key` set to the JSON text `value`: the other details are
    /// kept in order and the new one comes last.
    pub fn with_detail(self, key: String, value: String) -> (s: Self)
        ensures
            detail_view(s.details@) == detail_view(self.details@).filter(|p: (Seq<char>, Seq<char>)| p.0 != key@).push((key@, value@)),
            s == (HealthStatus { details: s.details, ..self }),
    {
        let ghost orig = self;
        let ghost pred = |p: (Seq<char>, Seq<char>)| p.0 != key@;
        let mut s = self;
        let mut kept: Vec<(String, String)> = Vec::new();
        let mut i: usize = 0;
        while i < s.details.len()
            invariant
                i <= orig.details@.len(),
                s == orig,
                orig == self,
                pred == (|p: (Seq<char>, Seq<char>)| p.0 != key@),
                detail_view(kept@) == detail_view(orig.details@).take(i as int).filter(pred),
            decreases orig.details@.len() - i,
        {
            let ghost dv = detail_view(orig.details@);
            let ghost before = kept@;
            proof {
                assert(dv.take(i + 1) =~= dv.take(i as int).push(dv[i as int]));
                dv.take(i as int).lemma_filter_push(dv[i as int], pred);
            }
            if s.details[i].0 != key {
                let pair = (s.details[i].0.clone(), s.details[i].1.clone());
                kept.push(pair);
                proof {
                    assert(detail_view(kept@) =~= detail_view(before).push(dv[i as int]));
                }
            }
            i = i + 1;
        }
        let ghost before = kept@;
        proof {
            assert(detail_view(orig.details@).take(orig.details@.len() as int) =~= detail_view(orig.details@));
        }
        kept.push((key, value));
        proof {
            assert(detail_view(kept@) =~= detail_view(before).push((key@, value@)));
        }
        s.details = kept;
        s
    }

    /// The same status with check duration `duration_ms`.
    pub fn with_check_duration(self, duration_ms: u64) -> (s: Self)
        ensures
            s == (HealthStatus { check_duration_ms: duration_ms, ..self }),
    {
        let mut s = self;
        s.check_duration_ms = duration_ms;
        s
    }

    /// A copy of this status.
    pub fn duplicate(&self) -> (s: Self)
        ensures
            same_status(s, *self),
    {
        let mut details: Vec<(String, String)> = Vec::new();
        let mut i: usize = 0;
        while i < self.details.len()
            invariant
                i <= self.details@.len(),
                details@.len() == i,
                forall|k: int| 0 <= k < i ==>
                    (#[trigger] details@[k]).0@ == self.details@[k].0@ && details@[k].1@ == self.details@[k].1@,
            decreases self.details@.len() - i,
        {
            details.push((self.details[i].0.clone(), self.details[i].1.clone()));
            i = i + 1;
        }
        proof {
            assert(detail_view(details@) =~= detail_view(self.details@));
        }
        HealthStatus {
            level: self.level,
            score: self.score,
            message: self.message.clone(),
            details,
            last_check_ms: self.last_check_ms,
            check_duration_ms: self.check_duration_ms,
        }
    }
}

/// Parameters of health checking. Thresholds are in hundredths of a point.
#[derive(Debug, Clone, Copy)]
pub struct HealthCheckConfig {
    pub check_interval_ms: u64,
    pub check_timeout_ms: u64,
    /// Lowest score of a healthy component.
    pub healthy_threshold: u32,
    /// Lowest score of a component with a warning.
    pub warning_threshold: u32,
    pub deep_diagnostics: bool,
    pub max_retries: u32,
}

impl Default for HealthCheckConfig {
    /// Checks every 30 s with a 5 s timeout, healthy from 80 points, warning from 60 points,
    /// no deep diagnostics, three retries.
    fn default() -> (c: Self)
        ensures
            c.check_interval_ms == 30_000,
            c.check_timeout_ms == 5_000,
            c.healthy_threshold == 8000,
            c.warning_threshold == 6000,
            !c.deep_diagnostics,
            c.max_retries == 3,
    {
        HealthCheckConfig {
            check_interval_ms: 30_000,
            check_timeout_ms: 5_000,
            healthy_threshold: 8000,
            warning_threshold: 6000,
            deep_diagnostics: false,
            max_retries: 3,
        }
    }
}

/// Score of a component: 100 points when ready and 0 otherwise, averaged (rounding down)
/// with the score the component reports about itself, when it reports one.
pub open spec fn spec_health_score(ready: bool, reported: Option<u32>) -> int {
    let base: int = if ready { 10000 } else { 0 };
    match reported {
        Some(h) => (base + h) / 2,
        None => base,
    }
}

/// The level of a score: Excellent from 95 points when at least healthy, Healthy from the
/// healthy threshold, Warning from the warning threshold, Critical below.
pub open spec fn spec_level_for(score: int, config: HealthCheckConfig) -> HealthLevel {
    if score >= config.healthy_threshold {
        if score >= 9500 { HealthLevel::Excellent } else { HealthLevel::Healthy }
    } else if score >= config.warning_threshold {
        HealthLevel::Warning
    } else {
        HealthLevel::Critical
    }
}

/// The level of a component that answered its health check: a component that is not ready
/// is in the Warning state (Critical is kept for a check that failed or timed out); a ready
/// one is graded by its score.
pub open spec fn spec_component_level(ready: bool, score: int, config: HealthCheckConfig) -> HealthLevel {
    if ready { spec_level_for(score, config) } else { HealthLevel::Warning }
}

/// The score and level of a component that passed its health check, from its readiness
/// and the score it reports (`health_score` in its metrics), if any.
pub fn calculate_health_score(ready: bool, reported: Option<u32>, config: &HealthCheckConfig) -> (r: (u32, HealthLevel))
    ensures
        r.0 == spec_health_score(ready, reported),
        r.1 == spec_component_level(ready, r.0 as int, *config),
{
    let base: u64 = if ready { 10000 } else { 0 };
    let score: u64 = match reported {
        Some(h) => (base + h as u64) / 2,
        None => base,
    };
    let score32: u32 = score as u32;
    let level = if !ready {
        HealthLevel::Warning
    } else if score32 >= config.healthy_threshold {
        if score32 >= 9500 { HealthLevel::Excellent } else { HealthLevel::Healthy }
    } else if score32 >= config.warning_threshold {
        HealthLevel::Warning
    } else {
        HealthLevel::Critical
    };
    (score32, level)
}

/// Pause before retry number `attempt + 1` of a failed health check: 100 ms times
/// `attempt + 1`.
pub fn health_retry_delay_ms(attempt: u32) -> (d: u64)
    ensures
        d == 100 * (attempt + 1),
{
    100 * (attempt as u64 + 1)
}

/// Whether a failed health check is tried again after attempt `attempt` (counting from 0).
pub fn should_retry_health_check(attempt: u32, max_retries: u32) -> (r: bool)
    ensures
        r == (attempt < max_retries),
{
    attempt < max_retries
}

/// The digits after the decimal point of `f` thousandths (`f < 1000`), trailing zeros
/// dropped, with the point; nothing when `f` is zero.
pub open spec fn fraction_text(f: nat) -> Seq<char> {
    let (a, b, c) = (f / 100, (f / 10) % 10, f % 10);
    if f == 0 {
        Seq::empty()
    } else if c != 0 {
        seq!['.', digit_char(a), digit_char(b), digit_char(c)]
    } else if b != 0 {
        seq!['.', digit_char(a), digit_char(b)]
    } else {
        seq!['.', digit_char(a)]
    }
}

/// How a duration of `ms` milliseconds is printed in debug form: seconds with their
/// fraction when at least a second, milliseconds when less, `0ns` when zero.
pub open spec fn duration_text(ms: nat) -> Seq<char> {
    if ms >= 1000 {
        decimal(ms / 1000) + fraction_text(ms % 1000) + "s"@
    } else if ms > 0 {
        decimal(ms) + "ms"@
    } else {
        "0ns"@
    }
}

/// The text of a decimal digit.
fn digit_text(d: u64) -> (t: &'static str)
    requires
        d < 10,
    ensures
        t@ == seq![digit_char(d as nat)],
{
    proof {
        reveal_strlit("0");
        reveal_strlit("1");
        reveal_strlit("2");
        reveal_strlit("3");
        reveal_strlit("4");
        reveal_strlit("5");
        reveal_strlit("6");
        reveal_strlit("7");
        reveal_strlit("8");
        reveal_strlit("9");
    }
    if d == 0 { "0" } else if d == 1 { "1" } else if d == 2 { "2" } else if d == 3 { "3" } else if d == 4 { "4" }
    else if d == 5 { "5" } else if d == 6 { "6" } else if d == 7 { "7" } else if d == 8 { "8" } else { "9" }
}

/// Appends the debug form of a duration of `ms` milliseconds to `s`.
pub fn push_duration(s: &mut String, ms: u64)
    ensures
        final(s)@ == old(s)@ + duration_text(ms as nat),
{
    proof {
        reveal_strlit("s");
        reveal_strlit("ms");
        reveal_strlit("0ns");
        reveal_strlit(".");
    }
    if ms >= 1000 {
        push_decimal(s, ms / 1000);
        let f = ms % 1000;
        let a = f / 100;
        let b = (f / 10) % 10;
        let c = f % 10;
        if f != 0 {
            s.append(".");
            s.append(digit_text(a));
            if c != 0 {
                s.append(digit_text(b));
                s.append(digit_text(c));
            } else if b != 0 {
                s.append(digit_text(b));
            }
        }
        proof {
            let fr = fraction_text(f as nat);
            assert(fr == fraction_text((ms % 1000) as nat));
        }
        s.append("s");
        proof {
            assert(s@ =~= old(s)@ + duration_text(ms as nat));
        }
    } else if ms > 0 {
        push_decimal(s, ms);
        s.append("ms");
        proof {
            assert(s@ =~= old(s)@ + duration_text(ms as nat));
        }
    } else {
        s.append("0ns");
        proof {
            assert(s@ =~= old(s)@ + duration_text(ms as nat));
        }
    }
}

/// What a health check of one coordinator reported.
#[derive(Debug)]
pub enum HealthCheckOutcome {
    /// The check passed; the coordinator's readiness, the score it reports about itself (if
    /// any) and the JSON text of its metrics.
    Passed { ready: bool, reported_score: Option<u32>, metrics_json: String },
    /// The check failed with this error text (after all retries).
    Failed(String),
    /// The check did not finish within the timeout.
    TimedOut,
}

/// The message of a status made from a check outcome.
pub open spec fn outcome_message(name: Seq<char>, outcome: HealthCheckOutcome, config: HealthCheckConfig) -> Seq<char> {
    match outcome {
        HealthCheckOutcome::Passed { .. } => "Coordinator "@ + name + " operational"@,
        HealthCheckOutcome::Failed(e) => "Health check failed: "@ + e@,
        HealthCheckOutcome::TimedOut => "Health check timed out after "@ + duration_text(config.check_timeout_ms as nat),
    }
}

/// The health status of coordinator `name` after its check reported `outcome`, the check
/// having run `duration_ms` and finished at `now_ms`. A passed check scores readiness and
/// the reported score, with details `ready` and `metrics`; a failed or timed-out check is
/// Critical with score 0.
pub fn check_coordinator_health(name: &str, outcome: HealthCheckOutcome, config: &HealthCheckConfig, duration_ms: u64, now_ms: u64) -> (s: HealthStatus)
    ensures
        s.message@ == outcome_message(name@, outcome, *config),
        s.check_duration_ms == duration_ms,
        s.last_check_ms == now_ms,
        match outcome {
            HealthCheckOutcome::Passed { ready, reported_score, metrics_json } => {
                &&& s.score == spec_health_score(ready, reported_score)
                &&& s.level == spec_component_level(ready, s.score as int, *config)
                &&& detail_view(s.details@) == seq![("ready"@, if ready { "true"@ } else { "false"@ }), ("metrics"@, metrics_json@)]
            },
            _ => s.level == HealthLevel::Critical && s.score == 0 && s.details@.len() == 0,
        },
{
    proof {
        reveal_strlit("ready");
        reveal_strlit("metrics");
        reveal_strlit("true");
        reveal_strlit("false");
    }
    let ghost outcome_copy = outcome;
    match outcome {
        HealthCheckOutcome::Passed { ready, reported_score, metrics_json } => {
            let (score, level) = calculate_health_score(ready, reported_score, config);
            let mut message = String::new();
            message.append("Coordinator ");
            message.append(name);
            message.append(" operational");
            let ready_text = if ready { "true" } else { "false" };
            let s1 = HealthStatus::new(level, score, message, now_ms);
            let s2 = s1.with_detail("ready".to_owned(), ready_text.to_owned());
            let s3 = s2.with_detail("metrics".to_owned(), metrics_json);
            proof {
                let e = Seq::<(Seq<char>, Seq<char>)>::empty();
                let first = ("ready"@, ready_text@);
                let p1 = |p: (Seq<char>, Seq<char>)| p.0 != "ready"@;
                let p2 = |p: (Seq<char>, Seq<char>)| p.0 != "metrics"@;
                assert(detail_view(s1.details@) =~= e);
                assert(e.filter(p1) =~= e) by { reveal(Seq::filter); }
                assert(detail_view(s2.details@) =~= seq![first]);
                assert("ready"@ != "metrics"@) by {
                    assert("ready"@[0] != "metrics"@[0]);
                }
                e.lemma_filter_push(first, p2);
                assert(e.filter(p2) =~= e) by { reveal(Seq::filter); }
                assert(e.push(first) =~= seq![first]);
                assert(seq![first].filter(p2) =~= seq![first]);
            }
            s3.with_check_duration(duration_ms)
        },
        HealthCheckOutcome::Failed(e) => {
            let mut message = String::new();
            message.append("Health check failed: ");
            message.append(e.as_str());
            HealthStatus::new(HealthLevel::Critical, 0, message, now_ms).with_check_duration(duration_ms)
        },
        HealthCheckOutcome::TimedOut => {
            let mut message = String::new();
            message.append("Health check timed out after ");
            push_duration(&mut message, config.check_timeout_ms);
            HealthStatus::new(HealthLevel::Critical, 0, message, now_ms).with_check_duration(duration_ms)
        },
    }
}

/// What the diagnostics learned of one coordinator.
#[derive(Debug)]
pub enum CoordinatorCheck {
    /// Its health check produced this status.
    Completed(HealthStatus),
    /// Its health check could not be run; the error text.
    Errored(String),
    /// The task that ran its check failed; nothing is known of it.
    TaskFailed,
}

/// Weight of a status in the overall score (doubled so that all weights are whole):
/// Critical 4, Warning 3, Healthy and Excellent 2.
pub open spec fn level_weight(l: HealthLevel) -> int {
    match l {
        HealthLevel::Critical => 4,
        HealthLevel::Warning => 3,
        _ => 2,
    }
}

/// Sum of the weighted scores.
pub open spec fn weighted_sum(s: Seq<(String, HealthStatus)>) -> int
    decreases s.len(),
{
    if s.len() == 0 { 0 } else { weighted_sum(s.drop_last()) + s.last().1.score * level_weight(s.last().1.level) }
}

/// Sum of the weights.
pub open spec fn total_weight(s: Seq<(String, HealthStatus)>) -> int
    decreases s.len(),
{
    if s.len() == 0 { 0 } else { total_weight(s.drop_last()) + level_weight(s.last().1.level) }
}

/// How many statuses have level `l`.
pub open spec fn count_level(s: Seq<(String, HealthStatus)>, l: HealthLevel) -> nat
    decreases s.len(),
{
    if s.len() == 0 { 0 } else { count_level(s.drop_last(), l) + if s.last().1.level == l { 1nat } else { 0nat } }
}

proof fn lemma_sums_bounded(s: Seq<(String, HealthStatus)>)
    ensures
        0 <= weighted_sum(s) <= u32::MAX * total_weight(s),
        2 * s.len() <= total_weight(s) <= 4 * s.len(),
        count_level(s, HealthLevel::Critical) <= s.len(),
        count_level(s, HealthLevel::Warning) <= s.len(),
    decreases s.len(),
{
    if s.len() > 0 {
        lemma_sums_bounded(s.drop_last());
        let st = s.last().1;
        assert(st.score * level_weight(st.level) <= u32::MAX * level_weight(st.level)) by (nonlinear_arith)
            requires st.score <= u32::MAX, level_weight(st.level) >= 0;
        assert(0 <= st.score * level_weight(st.level)) by (nonlinear_arith)
            requires st.score >= 0, level_weight(st.level) >= 0;
    }
}

/// The overall score: the weighted average of the scores, rounded down; 0 with no status.
pub open spec fn spec_overall_score(s: Seq<(String, HealthStatus)>) -> int {
    if s.len() == 0 { 0 } else { weighted_sum(s) / total_weight(s) }
}

/// The overall level: Critical with no status or with any critical one; Warning when more
/// than half of them warn; otherwise by the overall score: Excellent from 95 points, Healthy
/// from the healthy threshold, Warning below.
pub open spec fn spec_overall_level(s: Seq<(String, HealthStatus)>, config: HealthCheckConfig) -> HealthLevel {
    if s.len() == 0 || count_level(s, HealthLevel::Critical) > 0 {
        HealthLevel::Critical
    } else if count_level(s, HealthLevel::Warning) > s.len() / 2 {
        HealthLevel::Warning
    } else if spec_overall_score(s) >= 9500 {
        HealthLevel::Excellent
    } else if spec_overall_score(s) >= config.healthy_threshold {
        HealthLevel::Healthy
    } else {
        HealthLevel::Warning
    }
}

/// The overall score and level of the coordinators' statuses.
pub fn calculate_overall_health(statuses: &Vec<(String, HealthStatus)>, config: &HealthCheckConfig) -> (r: (u32, HealthLevel))
    ensures
        r.0 == spec_overall_score(statuses@),
        r.1 == spec_overall_level(statuses@, *config),
{
    if statuses.len() == 0 {
        return (0, HealthLevel::Critical);
    }
    let mut sum: u128 = 0;
    let mut weight: u128 = 0;
    let mut critical: usize = 0;
    let mut warning: usize = 0;
    let mut i: usize = 0;
    while i < statuses.len()
        invariant
            i <= statuses@.len(),
            sum == weighted_sum(statuses@.take(i as int)),
            weight == total_weight(statuses@.take(i as int)),
            critical == count_level(statuses@.take(i as int), HealthLevel::Critical),
            warning == count_level(statuses@.take(i as int), HealthLevel::Warning),
        decreases statuses@.len() - i,
    {
        proof {
            let t = statuses@.take(i + 1);
            assert(t.drop_last() =~= statuses@.take(i as int));
            lemma_sums_bounded(statuses@.take(i + 1));
            lemma_sums_bounded(statuses@.take(i as int));
        }
        let st = &statuses[i].1;
        let w: u128 = match st.level {
            HealthLevel::Critical => 4,
            HealthLevel::Warning => 3,
            _ => 2,
        };
        proof {
            assert(st.score * w <= u32::MAX * 4) by (nonlinear_arith)
                requires st.score <= u32::MAX, w <= 4;
            assert(u32::MAX * total_weight(statuses@.take(i as int)) <= u32::MAX * (4 * i)) by (nonlinear_arith)
                requires total_weight(statuses@.take(i as int)) <= 4 * i;
            assert(i < 0x1_0000_0000_0000_0000);
        }
        sum = sum + st.score as u128 * w;
        weight = weight + w;
        match st.level {
            HealthLevel::Critical => { critical = critical + 1; },
            HealthLevel::Warning => { warning = warning + 1; },
            _ => {},
        }
        i = i + 1;
    }
    proof {
        assert(statuses@.take(statuses@.len() as int) =~= statuses@);
        lemma_sums_bounded(statuses@);
        assert(sum / weight <= u32::MAX) by (nonlinear_arith)
            requires sum <= u32::MAX * weight, weight > 0;
    }
    let score: u32 = (sum / weight) as u32;
    let level = if critical > 0 {
        HealthLevel::Critical
    } else if warning > statuses.len() / 2 {
        HealthLevel::Warning
    } else if score >= 9500 {
        HealthLevel::Excellent
    } else if score >= config.healthy_threshold {
        HealthLevel::Healthy
    } else {
        HealthLevel::Warning
    };
    (score, level)
}

/// The text of a recommendation about `c` critical coordinators.
pub open spec fn urgent_text(c: nat) -> Seq<char> {
    "СРОЧНО: "@ + decimal(c) + " координаторов в критическом состоянии требуют немедленного внимания"@
}

/// The text of a recommendation about `w` coordinators with warnings.
pub open spec fn attention_text(w: nat) -> Seq<char> {
    "ВНИМАНИЕ: "@ + decimal(w) + " координаторов показывают предупреждения, рекомендуется проверка"@
}

/// The recommendations about each coordinator, in order: restart a critical one, watch one
/// scoring under 70 points.
pub open spec fn per_coordinator_advice(s: Seq<(String, HealthStatus)>) -> Seq<Seq<char>>
    decreases s.len(),
{
    if s.len() == 0 {
        Seq::empty()
    } else {
        let (name, st) = (s.last().0, s.last().1);
        per_coordinator_advice(s.drop_last()) + if st.level == HealthLevel::Critical {
            seq!["Проверить логи и перезапустить координатор "@ + name@]
        } else if st.score < 7000 {
            seq!["Мониторить производительность координатора "@ + name@]
        } else {
            Seq::empty()
        }
    }
}

/// All recommendations for the statuses: how many are critical and how many warn (or that
/// the system runs normally when none does), then the advice about each coordinator.
pub open spec fn spec_recommendations(s: Seq<(String, HealthStatus)>) -> Seq<Seq<char>> {
    let c = count_level(s, HealthLevel::Critical);
    let w = count_level(s, HealthLevel::Warning);
    (if c > 0 { seq![urgent_text(c)] } else { Seq::empty() })
        + (if w > 0 { seq![attention_text(w)] } else { Seq::empty() })
        + (if c == 0 && w == 0 { seq!["Система работает в нормальном режиме"@] } else { Seq::empty() })
        + per_coordinator_advice(s)
}

/// The recommendations for the statuses of the coordinators.
pub fn generate_recommendations(statuses: &Vec<(String, HealthStatus)>) -> (r: Vec<String>)
    ensures
        r@.map_values(|x: String| x@) == spec_recommendations(statuses@),
{
    let mut critical: usize = 0;
    let mut warning: usize = 0;
    let mut i: usize = 0;
    while i < statuses.len()
        invariant
            i <= statuses@.len(),
            critical == count_level(statuses@.take(i as int), HealthLevel::Critical),
            warning == count_level(statuses@.take(i as int), HealthLevel::Warning),
        decreases statuses@.len() - i,
    {
        proof {
            assert(statuses@.take(i + 1).drop_last() =~= statuses@.take(i as int));
            lemma_sums_bounded(statuses@.take(i + 1));
        }
        match statuses[i].1.level {
            HealthLevel::Critical => { critical = critical + 1; },
            HealthLevel::Warning => { warning = warning + 1; },
            _ => {},
        }
        i = i + 1;
    }
    proof { assert(statuses@.take(statuses@.len() as int) =~= statuses@); }
    let mut out: Vec<String> = Vec::new();
    if critical > 0 {
        let mut t = String::new();
        t.append("СРОЧНО: ");
        push_decimal(&mut t, critical as u64);
        t.append(" координаторов в критическом состоянии требуют немедленного внимания");
        out.push(t);
    }
    if warning > 0 {
        let mut t = String::new();
        t.append("ВНИМАНИЕ: ");
        push_decimal(&mut t, warning as u64);
        t.append(" координаторов показывают предупреждения, рекомендуется проверка");
        out.push(t);
    }
    if critical == 0 && warning == 0 {
        out.push("Система работает в нормальном режиме".to_owned());
    }
    let ghost head = out@.map_values(|x: String| x@);
    let c = critical;
    let w = warning;
    proof {
        let h = (if c > 0 { seq![urgent_text(c as nat)] } else { Seq::<Seq<char>>::empty() })
            + (if w > 0 { seq![attention_text(w as nat)] } else { Seq::<Seq<char>>::empty() })
            + (if c == 0 && w == 0 { seq!["Система работает в нормальном режиме"@] } else { Seq::<Seq<char>>::empty() });
        assert(head =~= h);
    }
    let mut j: usize = 0;
    while j < statuses.len()
        invariant
            j <= statuses@.len(),
            out@.map_values(|x: String| x@) == head + per_coordinator_advice(statuses@.take(j as int)),
        decreases statuses@.len() - j,
    {
        let ghost before = out@;
        proof {
            assert(statuses@.take(j + 1).drop_last() =~= statuses@.take(j as int));
        }
        let (name, st) = (&statuses[j].0, &statuses[j].1);
        if st.level == HealthLevel::Critical {
            let mut t = String::new();
            t.append("Проверить логи и перезапустить координатор ");
            t.append(name.as_str());
            out.push(t);
        } else if st.score < 7000 {
            let mut t = String::new();
            t.append("Мониторить производительность координатора ");
            t.append(name.as_str());
            out.push(t);
        }
        proof {
            let t1 = statuses@.take(j + 1);
            assert(t1.last() == statuses@[j as int]);
            let adv0 = per_coordinator_advice(statuses@.take(j as int));
            let adv1 = per_coordinator_advice(t1);
            if st.level == HealthLevel::Critical || st.score < 7000 {
                assert(out@.map_values(|x: String| x@) =~= before.map_values(|x: String| x@).push(out@.last()@));
            } else {
                assert(adv1 =~= adv0);
            }
            assert(out@.map_values(|x: String| x@) =~= head + adv1);
        }
        j = j + 1;
    }
    proof { assert(statuses@.take(statuses@.len() as int) =~= statuses@); }
    out
}

/// Result of one system diagnostics run.
#[derive(Debug)]
pub struct SystemDiagnostics {
    pub overall_health: HealthLevel,
    /// Overall score in hundredths of a point.
    pub overall_score: u32,
    /// Each checked coordinator with its status, in the order the checks were reported.
    pub coordinator_statuses: Vec<(String, HealthStatus)>,
    pub system_issues: Vec<String>,
    pub recommendations: Vec<String>,
    /// When the run started (milliseconds).
    pub check_timestamp_ms: u64,
    pub total_check_duration_ms: u64,
}

/// The statuses of `a` and `b` are pairwise the same.
pub open spec fn same_statuses(a: Seq<(String, HealthStatus)>, b: Seq<(String, HealthStatus)>) -> bool {
    &&& a.len() == b.len()
    &&& forall|k: int| 0 <= k < a.len() ==> (#[trigger] a[k]).0@ == b[k].0@ && same_status(a[k].1, b[k].1)
}

/// `a` and `b` hold the same diagnostics (strings by content).
pub open spec fn same_diagnostics(a: SystemDiagnostics, b: SystemDiagnostics) -> bool {
    &&& a.overall_health == b.overall_health
    &&& a.overall_score == b.overall_score
    &&& same_statuses(a.coordinator_statuses@, b.coordinator_statuses@)
    &&& a.system_issues@.map_values(|x: String| x@) == b.system_issues@.map_values(|x: String| x@)
    &&& a.recommendations@.map_values(|x: String| x@) == b.recommendations@.map_values(|x: String| x@)
    &&& a.check_timestamp_ms == b.check_timestamp_ms
    &&& a.total_check_duration_ms == b.total_check_duration_ms
}

fn copy_strings(v: &Vec<String>) -> (r: Vec<String>)
    ensures
        r@.map_values(|x: String| x@) == v@.map_values(|x: String| x@),
{
    let mut out: Vec<String> = Vec::new();
    let mut i: usize = 0;
    while i < v.len()
        invariant
            i <= v@.len(),
            out@.len() == i,
            forall|k: int| 0 <= k < i ==> (#[trigger] out@[k])@ == v@[k]@,
        decreases v@.len() - i,
    {
        out.push(v[i].clone());
        i = i + 1;
    }
    assert(out@.map_values(|x: String| x@) =~= v@.map_values(|x: String| x@));
    out
}

fn copy_statuses(v: &Vec<(String, HealthStatus)>) -> (r: Vec<(String, HealthStatus)>)
    ensures
        same_statuses(r@, v@),
{
    let mut out: Vec<(String, HealthStatus)> = Vec::new();
    let mut i: usize = 0;
    while i < v.len()
        invariant
            i <= v@.len(),
            out@.len() == i,
            forall|k: int| 0 <= k < i ==> (#[trigger] out@[k]).0@ == v@[k].0@ && same_status(out@[k].1, v@[k].1),
        decreases v@.len() - i,
    {
        out.push((v[i].0.clone(), v[i].1.duplicate()));
        i = i + 1;
    }
    out
}

/// Counts of statuses at each level.
#[derive(Debug, Clone, Copy, PartialEq, Eq, Structural)]
pub struct HealthDistribution {
    pub critical: usize,
    pub warning: usize,
    pub healthy: usize,
    pub excellent: usize,
}

impl SystemDiagnostics {
    /// A copy of these diagnostics.
    pub fn duplicate(&self) -> (d: Self)
        ensures
            same_diagnostics(d, *self),
    {
        SystemDiagnostics {
            overall_health: self.overall_health,
            overall_score: self.overall_score,
            coordinator_statuses: copy_statuses(&self.coordinator_statuses),
            system_issues: copy_strings(&self.system_issues),
            recommendations: copy_strings(&self.recommendations),
            check_timestamp_ms: self.check_timestamp_ms,
            total_check_duration_ms: self.total_check_duration_ms,
        }
    }

    /// How many coordinators are at each health level.
    pub fn get_health_distribution(&self) -> (d: HealthDistribution)
        ensures
            d.critical == count_level(self.coordinator_statuses@, HealthLevel::Critical),
            d.warning == count_level(self.coordinator_statuses@, HealthLevel::Warning),
            d.healthy == count_level(self.coordinator_statuses@, HealthLevel::Healthy),
            d.excellent == count_level(self.coordinator_statuses@, HealthLevel::Excellent),
    {
        let s = &self.coordinator_statuses;
        let mut d = HealthDistribution { critical: 0, warning: 0, healthy: 0, excellent: 0 };
        let mut i: usize = 0;
        while i < s.len()
            invariant
                i <= s@.len(),
                d.critical == count_level(s@.take(i as int), HealthLevel::Critical),
                d.warning == count_level(s@.take(i as int), HealthLevel::Warning),
                d.healthy == count_level(s@.take(i as int), HealthLevel::Healthy),
                d.excellent == count_level(s@.take(i as int), HealthLevel::Excellent),
                d.critical + d.warning + d.healthy + d.excellent == i,
            decreases s@.len() - i,
        {
            proof {
                assert(s@.take(i + 1).drop_last() =~= s@.take(i as int));
            }
            match s[i].1.level {
                HealthLevel::Critical => { d.critical = d.critical + 1; },
                HealthLevel::Warning => { d.warning = d.warning + 1; },
                HealthLevel::Healthy => { d.healthy = d.healthy + 1; },
                HealthLevel::Excellent => { d.excellent = d.excellent + 1; },
            }
            i = i + 1;
        }
        proof { assert(s@.take(s@.len() as int) =~= s@); }
        d
    }

    /// The names of the coordinators in critical state, in order.
    pub fn get_critical_issues(&self) -> (r: Vec<String>)
        ensures
            r@.map_values(|x: String| x@) == self.coordinator_statuses@
                .filter(|x: (String, HealthStatus)| x.1.level == HealthLevel::Critical)
                .map_values(|x: (String, HealthStatus)| x.0@),
    {
        let s = &self.coordinator_statuses;
        let ghost pred = |x: (String, HealthStatus)| x.1.level == HealthLevel::Critical;
        let mut out: Vec<String> = Vec::new();
        let mut i: usize = 0;
        while i < s.len()
            invariant
                i <= s@.len(),
                pred == (|x: (String, HealthStatus)| x.1.level == HealthLevel::Critical),
                out@.map_values(|x: String| x@) == s@.take(i as int).filter(pred).map_values(|x: (String, HealthStatus)| x.0@),
            decreases s@.len() - i,
        {
            let ghost before = out@;
            proof {
                assert(s@.take(i + 1) =~= s@.take(i as int).push(s@[i as int]));
                s@.take(i as int).lemma_filter_push(s@[i as int], pred);
            }
            if s[i].1.level == HealthLevel::Critical {
                out.push(s[i].0.clone());
                proof {
                    let ft = s@.take(i as int).filter(pred);
                    assert(out@.map_values(|x: String| x@) =~= before.map_values(|x: String| x@).push(s@[i as int].0@));
                    assert(ft.push(s@[i as int]).map_values(|x: (String, HealthStatus)| x.0@)
                        =~= ft.map_values(|x: (String, HealthStatus)| x.0@).push(s@[i as int].0@));
                }
            }
            i = i + 1;
        }
        proof { assert(s@.take(s@.len() as int) =~= s@); }
        out
    }

    /// Whether the system is ready: no coordinator is critical and the overall score is
    /// above 70 points.
    pub fn is_system_ready(&self) -> (r: bool)
        ensures
            r == (count_level(self.coordinator_statuses@, HealthLevel::Critical) == 0 && self.overall_score > 7000),
    {
        let d = self.get_health_distribution();
        d.critical == 0 && self.overall_score > 7000
    }
}

/// The system issue one coordinator's check reveals, if any: a critical status, a warning,
/// or a check that could not run.
pub open spec fn issue_of(name: Seq<char>, c: CoordinatorCheck) -> Seq<Seq<char>> {
    match c {
        CoordinatorCheck::Completed(st) => if st.level == HealthLevel::Critical {
            seq!["Критическая проблема с "@ + name + ": "@ + st.message@]
        } else if st.level == HealthLevel::Warning {
            seq!["Предупреждение для "@ + name + ": "@ + st.message@]
        } else {
            Seq::empty()
        },
        CoordinatorCheck::Errored(e) => seq!["Координатор "@ + name + " недоступен: "@ + e@],
        CoordinatorCheck::TaskFailed => Seq::empty(),
    }
}

/// The system issues of all checks, in order.
pub open spec fn issues_of(o: Seq<(String, CoordinatorCheck)>) -> Seq<Seq<char>>
    decreases o.len(),
{
    if o.len() == 0 { Seq::empty() } else { issues_of(o.drop_last()) + issue_of(o.last().0@, o.last().1) }
}

/// How many checks failed: could not run, or their task failed.
pub open spec fn failures_of(o: Seq<(String, CoordinatorCheck)>) -> nat
    decreases o.len(),
{
    if o.len() == 0 {
        0
    } else {
        failures_of(o.drop_last()) + match o.last().1 {
            CoordinatorCheck::Completed(_) => 0nat,
            _ => 1nat,
        }
    }
}

/// The status recorded for a check: the status it produced, or a critical status with score
/// 0 and message `Health check failed: <error>` (no details, checked at `now_ms`) when it
/// could not run.
pub open spec fn status_for(name: Seq<char>, c: CoordinatorCheck, out: (String, HealthStatus), now_ms: u64) -> bool {
    &&& out.0@ == name
    &&& match c {
        CoordinatorCheck::Completed(st) => out.1 == st,
        CoordinatorCheck::Errored(e) => {
            &&& out.1.level == HealthLevel::Critical && out.1.score == 0
            &&& out.1.message@ == "Health check failed: "@ + e@
            &&& out.1.details@.len() == 0 && out.1.last_check_ms == now_ms && out.1.check_duration_ms == 0
        },
        CoordinatorCheck::TaskFailed => false,
    }
}

/// `out` holds, in order, the status recorded for each check whose task did not fail.
pub open spec fn statuses_for(o: Seq<(String, CoordinatorCheck)>, out: Seq<(String, HealthStatus)>, now_ms: u64) -> bool
    decreases o.len(),
{
    if o.len() == 0 {
        out.len() == 0
    } else if o.last().1 is TaskFailed {
        statuses_for(o.drop_last(), out, now_ms)
    } else {
        &&& out.len() > 0
        &&& status_for(o.last().0@, o.last().1, out.last(), now_ms)
        &&& statuses_for(o.drop_last(), out.drop_last(), now_ms)
    }
}

/// The statuses, issues and number of failures of a set of checks.
fn collect_checks(outcomes: Vec<(String, CoordinatorCheck)>, now_ms: u64) -> (r: (Vec<(String, HealthStatus)>, Vec<String>, u64))
    ensures
        statuses_for(outcomes@, r.0@, now_ms),
        r.1@.map_values(|x: String| x@) == issues_of(outcomes@),
        r.2 == failures_of(outcomes@),
        failures_of(outcomes@) <= outcomes@.len(),
{
    let ghost all = outcomes@;
    let n = outcomes.len();
    let mut rest = outcomes;
    let mut statuses: Vec<(String, HealthStatus)> = Vec::new();
    let mut issues: Vec<String> = Vec::new();
    let mut failed: u64 = 0;
    let mut i: usize = 0;
    while rest.len() > 0
        invariant
            i <= all.len(),
            all.len() == n,
            rest@ == all.skip(i as int),
            statuses_for(all.take(i as int), statuses@, now_ms),
            issues@.map_values(|x: String| x@) == issues_of(all.take(i as int)),
            failed == failures_of(all.take(i as int)),
            failed <= i,
        decreases rest@.len(),
    {
        proof {
            assert(all.take(i + 1).drop_last() =~= all.take(i as int));
            assert(all.skip(i as int)[0] == all[i as int]);
            assert(i < all.len());
        }
        let ghost issues_before = issues@;
        let ghost statuses_before = statuses@;
        let (name, check) = rest.remove(0);
        proof {
            assert(rest@ =~= all.skip(i + 1));
            assert(all.take(i + 1).last() == all[i as int]);
        }
        match check {
            CoordinatorCheck::Completed(st) => {
                if st.level == HealthLevel::Critical {
                    let mut t = String::new();
                    t.append("Критическая проблема с ");
                    t.append(name.as_str());
                    t.append(": ");
                    t.append(st.message.as_str());
                    issues.push(t);
                } else if st.level == HealthLevel::Warning {
                    let mut t = String::new();
                    t.append("Предупреждение для ");
                    t.append(name.as_str());
                    t.append(": ");
                    t.append(st.message.as_str());
                    issues.push(t);
                }
                statuses.push((name, st));
                proof {
                    assert(statuses@.drop_last() =~= statuses_before);
                }
            },
            CoordinatorCheck::Errored(e) => {
                failed = failed + 1;
                let mut m = String::new();
                m.append("Health check failed: ");
                m.append(e.as_str());
                let st = HealthStatus::new(HealthLevel::Critical, 0, m, now_ms);
                let mut t = String::new();
                t.append("Координатор ");
                t.append(name.as_str());
                t.append(" недоступен: ");
                t.append(e.as_str());
                issues.push(t);
                statuses.push((name, st));
                proof {
                    assert(statuses@.drop_last() =~= statuses_before);
                }
            },
            CoordinatorCheck::TaskFailed => {
                failed = failed + 1;
            },
        }
        proof {
            let t1 = all.take(i + 1);
            if issues@.len() > issues_before.len() {
                assert(issues@.map_values(|x: String| x@) =~= issues_before.map_values(|x: String| x@).push(issues@.last()@));
            }
            assert(issues@.map_values(|x: String| x@) =~= issues_of(t1));
        }
        i = i + 1;
    }
    proof {
        assert(all.take(i as int) =~= all);
    }
    (statuses, issues, failed)
}

/// Readiness summary of the coordinators, for a quick look at the system.
#[derive(Debug)]
pub struct QuickHealthStatus {
    /// Healthy when every coordinator is ready, Warning from three quarters, Critical below.
    pub level: HealthLevel,
    pub ready_coordinators: usize,
    pub total_coordinators: usize,
    /// Readiness of each coordinator that answered, in order.
    pub coordinator_readiness: Vec<(String, bool)>,
    /// When it was computed (milliseconds).
    pub computed_at_ms: u64,
}

/// The quick level for `ready` of `total` coordinators ready: Healthy when all are (or there
/// are none), Warning from three quarters, Critical below.
pub open spec fn spec_quick_level(ready: nat, total: nat) -> HealthLevel {
    if total == 0 || ready >= total {
        HealthLevel::Healthy
    } else if 4 * ready >= 3 * total {
        HealthLevel::Warning
    } else {
        HealthLevel::Critical
    }
}

/// How many answers say ready.
pub open spec fn ready_answers(results: Seq<(String, bool)>) -> nat
    decreases results.len(),
{
    if results.len() == 0 { 0 } else { ready_answers(results.drop_last()) + if results.last().1 { 1nat } else { 0nat } }
}

impl QuickHealthStatus {
    /// The quick status of `total` coordinators, of which those in `results` answered whether
    /// they are ready, computed at `now_ms`.
    pub fn from_readiness(total: usize, results: &Vec<(String, bool)>, now_ms: u64) -> (q: Self)
        ensures
            q.ready_coordinators == ready_answers(results@),
            q.total_coordinators == total,
            q.level == spec_quick_level(ready_answers(results@), total as nat),
            q.coordinator_readiness@.map_values(|x: (String, bool)| (x.0@, x.1)) == results@.map_values(|x: (String, bool)| (x.0@, x.1)),
            q.computed_at_ms == now_ms,
    {
        let mut ready: usize = 0;
        let mut copy: Vec<(String, bool)> = Vec::new();
        let mut i: usize = 0;
        while i < results.len()
            invariant
                i <= results@.len(),
                ready == ready_answers(results@.take(i as int)),
                ready <= i,
                copy@.len() == i,
                forall|k: int| 0 <= k < i ==> (#[trigger] copy@[k]).0@ == results@[k].0@ && copy@[k].1 == results@[k].1,
            decreases results@.len() - i,
        {
            proof { assert(results@.take(i + 1).drop_last() =~= results@.take(i as int)); }
            if results[i].1 {
                ready = ready + 1;
            }
            copy.push((results[i].0.clone(), results[i].1));
            i = i + 1;
        }
        proof {
            assert(results@.take(results@.len() as int) =~= results@);
            assert(copy@.map_values(|x: (String, bool)| (x.0@, x.1)) =~= results@.map_values(|x: (String, bool)| (x.0@, x.1)));
        }
        let level = if total == 0 || ready >= total {
            HealthLevel::Healthy
        } else if 4 * (ready as u128) >= 3 * (total as u128) {
            HealthLevel::Warning
        } else {
            HealthLevel::Critical
        };
        QuickHealthStatus { level, ready_coordinators: ready, total_coordinators: total, coordinator_readiness: copy, computed_at_ms: now_ms }
    }

    /// A copy of this status.
    pub fn duplicate(&self) -> (q: Self)
        ensures
            q.level == self.level,
            q.ready_coordinators == self.ready_coordinators,
            q.total_coordinators == self.total_coordinators,
            q.coordinator_readiness@.map_values(|x: (String, bool)| (x.0@, x.1)) == self.coordinator_readiness@.map_values(|x: (String, bool)| (x.0@, x.1)),
            q.computed_at_ms == self.computed_at_ms,
    {
        let mut copy: Vec<(String, bool)> = Vec::new();
        let mut i: usize = 0;
        while i < self.coordinator_readiness.len()
            invariant
                i <= self.coordinator_readiness@.len(),
                copy@.len() == i,
                forall|k: int| 0 <= k < i ==> (#[trigger] copy@[k]).0@ == self.coordinator_readiness@[k].0@
                    && copy@[k].1 == self.coordinator_readiness@[k].1,
            decreases self.coordinator_readiness@.len() - i,
        {
            copy.push((self.coordinator_readiness[i].0.clone(), self.coordinator_readiness[i].1));
            i = i + 1;
        }
        proof {
            assert(copy@.map_values(|x: (String, bool)| (x.0@, x.1)) =~= self.coordinator_readiness@.map_values(|x: (String, bool)| (x.0@, x.1)));
        }
        QuickHealthStatus {
            level: self.level,
            ready_coordinators: self.ready_coordinators,
            total_coordinators: self.total_coordinators,
            coordinator_readiness: copy,
            computed_at_ms: self.computed_at_ms,
        }
    }
}

/// Checks the health of the coordinators and keeps the history of its diagnostics.
pub struct HealthChecker {
    config: HealthCheckConfig,
    /// The most recent diagnostics last; the last one is the latest result.
    diagnostics_history: Vec<SystemDiagnostics>,
    max_history_size: usize,
    active: bool,
    total_checks: u64,
    failed_checks: u64,
    start_time_ms: u64,
    quick_status_cache: Option<QuickHealthStatus>,
    cache_ttl_ms: u64,
}

impl HealthChecker {
    pub closed spec fn cfg(&self) -> HealthCheckConfig {
        self.config
    }

    /// The diagnostics kept, oldest first.
    pub closed spec fn history(&self) -> Seq<SystemDiagnostics> {
        self.diagnostics_history@
    }

    pub closed spec fn history_limit(&self) -> nat {
        self.max_history_size as nat
    }

    pub closed spec fn is_on(&self) -> bool {
        self.active
    }

    pub closed spec fn checks_run(&self) -> u64 {
        self.total_checks
    }

    pub closed spec fn checks_failed(&self) -> u64 {
        self.failed_checks
    }

    pub closed spec fn started_at(&self) -> u64 {
        self.start_time_ms
    }

    /// The cached quick status, if any.
    pub closed spec fn cached(&self) -> Option<QuickHealthStatus> {
        self.quick_status_cache
    }

    /// How long a cached quick status stays valid (milliseconds).
    pub closed spec fn cache_ttl(&self) -> u64 {
        self.cache_ttl_ms
    }

    /// The history never holds more diagnostics than its limit.
    pub open spec fn wf(&self) -> bool {
        self.history().len() <= self.history_limit()
    }

    /// An active checker with `config`, keeping at most `max_history_size` diagnostics,
    /// started at `now_ms`, with no checks run yet and a quick-status cache that lasts 10 s.
    pub fn new(config: HealthCheckConfig, max_history_size: usize, now_ms: u64) -> (h: Self)
        ensures
            h.wf(),
            h.cfg() == config,
            h.history().len() == 0,
            h.history_limit() == max_history_size,
            h.is_on(),
            h.checks_run() == 0,
            h.checks_failed() == 0,
            h.started_at() == now_ms,
            h.cached() is None,
            h.cache_ttl() == 10_000,
    {
        HealthChecker {
            config,
            diagnostics_history: Vec::new(),
            max_history_size,
            active: true,
            total_checks: 0,
            failed_checks: 0,
            start_time_ms: now_ms,
            quick_status_cache: None,
            cache_ttl_ms: 10_000,
        }
    }

    /// A checker with the default configuration and a history of 100 diagnostics.
    pub fn with_defaults(now_ms: u64) -> (h: Self)
        ensures
            h.wf(),
            h.cfg() == (HealthCheckConfig {
                check_interval_ms: 30_000,
                check_timeout_ms: 5_000,
                healthy_threshold: 8000,
                warning_threshold: 6000,
                deep_diagnostics: false,
                max_retries: 3,
            }),
            h.history().len() == 0,
            h.history_limit() == 100,
            h.is_on(),
            h.checks_run() == 0,
            h.checks_failed() == 0,
            h.started_at() == now_ms,
            h.cached() is None,
    {
        Self::new(HealthCheckConfig::default(), 100, now_ms)
    }

    /// The configuration.
    pub fn config(&self) -> (c: HealthCheckConfig)
        ensures
            c == self.cfg(),
    {
        self.config
    }

    /// The most diagnostics the history keeps.
    pub fn max_history_size(&self) -> (n: usize)
        ensures
            n == self.history_limit(),
    {
        self.max_history_size
    }

    /// Whether the checker is active.
    pub fn is_active(&self) -> (b: bool)
        ensures
            b == self.is_on(),
    {
        self.active
    }

    /// How many diagnostics runs were made (wrapping past `u64::MAX`).
    pub fn total_checks(&self) -> (n: u64)
        ensures
            n == self.checks_run(),
    {
        self.total_checks
    }

    /// How many coordinator checks failed (wrapping past `u64::MAX`).
    pub fn failed_checks(&self) -> (n: u64)
        ensures
            n == self.checks_failed(),
    {
        self.failed_checks
    }

    /// Seconds since the checker started, at time `now_ms`.
    pub fn uptime_seconds(&self, now_ms: u64) -> (s: u64)
        ensures
            s == spec_elapsed(now_ms, self.started_at()) / 1000,
    {
        elapsed_ms(now_ms, self.start_time_ms) / 1000
    }

    /// Starts the checker: it becomes active.
    pub fn initialize(&mut self)
        ensures
            final(self).is_on(),
            final(self).history() == old(self).history(),
            final(self).history_limit() == old(self).history_limit(),
            final(self).cfg() == old(self).cfg(),
            final(self).cached() == old(self).cached(),
            final(self).checks_run() == old(self).checks_run(),
            final(self).checks_failed() == old(self).checks_failed(),
    {
        self.active = true;
    }

    /// Whether the checker is ready: it is when active.
    pub fn check_readiness(&self) -> (b: bool)
        ensures
            b == self.is_on(),
    {
        self.active
    }

    /// The checker's own health check: it fails while the checker is not active.
    pub fn perform_health_check(&self) -> (r: Result<(), String>)
        ensures
            r is Ok <==> self.is_on(),
            r matches Err(e) ==> e@ == "HealthChecker не активен"@,
    {
        if self.active { Ok(()) } else { Err("HealthChecker не активен".to_owned()) }
    }

    /// Stops the checker: it becomes inactive and its cache is emptied.
    pub fn shutdown(&mut self)
        ensures
            !final(self).is_on(),
            final(self).cached() is None,
            final(self).history() == old(self).history(),
            final(self).history_limit() == old(self).history_limit(),
            final(self).cfg() == old(self).cfg(),
            final(self).checks_run() == old(self).checks_run(),
            final(self).checks_failed() == old(self).checks_failed(),
    {
        self.active = false;
        self.quick_status_cache = None;
    }

    /// Replaces the configuration and empties the cache.
    pub fn update_config(&mut self, new_config: HealthCheckConfig)
        ensures
            final(self).cfg() == new_config,
            final(self).cached() is None,
            final(self).is_on() == old(self).is_on(),
            final(self).history() == old(self).history(),
            final(self).history_limit() == old(self).history_limit(),
            final(self).checks_run() == old(self).checks_run(),
            final(self).checks_failed() == old(self).checks_failed(),
    {
        self.config = new_config;
        self.quick_status_cache = None;
    }

    /// A copy of the latest diagnostics, if any run was made.
    pub fn get_last_diagnostics(&self) -> (r: Option<SystemDiagnostics>)
        ensures
            self.history().len() == 0 ==> r is None,
            self.history().len() > 0 ==> (r matches Some(d) && same_diagnostics(d, self.history().last())),
    {
        let n = self.diagnostics_history.len();
        if n == 0 {
            None
        } else {
            Some(self.diagnostics_history[n - 1].duplicate())
        }
    }

    /// Copies of the diagnostics kept, oldest first.
    pub fn get_diagnostics_history(&self) -> (r: Vec<SystemDiagnostics>)
        ensures
            r@.len() == self.history().len(),
            forall|k: int| 0 <= k < r@.len() ==> same_diagnostics(#[trigger] r@[k], self.history()[k]),
    {
        let mut out: Vec<SystemDiagnostics> = Vec::new();
        let mut i: usize = 0;
        while i < self.diagnostics_history.len()
            invariant
                i <= self.diagnostics_history@.len(),
                out@.len() == i,
                forall|k: int| 0 <= k < i ==> same_diagnostics(#[trigger] out@[k], self.diagnostics_history@[k]),
            decreases self.diagnostics_history@.len() - i,
        {
            out.push(self.diagnostics_history[i].duplicate());
            i = i + 1;
        }
        out
    }

    /// How many diagnostics the history holds.
    pub fn history_len(&self) -> (n: usize)
        ensures
            n == self.history().len(),
    {
        self.diagnostics_history.len()
    }

    /// Records a diagnostics run that started at `start_ms` and whose checks reported
    /// `outcomes` by `now_ms`: the statuses, issues, overall health and recommendations are
    /// computed, the run and its failed checks are counted, and the diagnostics are added
    /// to the history, dropping the oldest when the history is full. Returns the diagnostics.
    pub fn perform_system_diagnostics(&mut self, outcomes: Vec<(String, CoordinatorCheck)>, start_ms: u64, now_ms: u64) -> (d: SystemDiagnostics)
        requires
            old(self).wf(),
            old(self).history_limit() > 0,
        ensures
            final(self).wf(),
            statuses_for(outcomes@, d.coordinator_statuses@, now_ms),
            d.system_issues@.map_values(|x: String| x@) == issues_of(outcomes@),
            d.overall_score == spec_overall_score(d.coordinator_statuses@),
            d.overall_health == spec_overall_level(d.coordinator_statuses@, old(self).cfg()),
            d.recommendations@.map_values(|x: String| x@) == spec_recommendations(d.coordinator_statuses@),
            d.check_timestamp_ms == start_ms,
            d.total_check_duration_ms == spec_elapsed(now_ms, start_ms),
            final(self).checks_run() == bump(old(self).checks_run()),
            final(self).checks_failed() == bumped(old(self).checks_failed(), failures_of(outcomes@)),
            final(self).history().len() > 0,
            same_diagnostics(final(self).history().last(), d),
            final(self).history().drop_last() == (if old(self).history().len() >= old(self).history_limit() {
                old(self).history().drop_first()
            } else {
                old(self).history()
            }),
            final(self).history_limit() == old(self).history_limit(),
            final(self).cfg() == old(self).cfg(),
            final(self).is_on() == old(self).is_on(),
            final(self).cached() == old(self).cached(),
    {
        self.total_checks = bump_exec(self.total_checks);
        let (statuses, issues, failed) = collect_checks(outcomes, now_ms);
        let mut k: u64 = 0;
        while k < failed
            invariant
                k <= failed,
                self.failed_checks == bumped(old(self).failed_checks, k as nat),
                self.total_checks == bump(old(self).total_checks),
                self.config == old(self).config,
                self.diagnostics_history == old(self).diagnostics_history,
                self.max_history_size == old(self).max_history_size,
                self.active == old(self).active,
                self.quick_status_cache == old(self).quick_status_cache,
            decreases failed - k,
        {
            self.failed_checks = bump_exec(self.failed_checks);
            k = k + 1;
        }
        let (overall_score, overall_health) = calculate_overall_health(&statuses, &self.config);
        let recommendations = generate_recommendations(&statuses);
        let d = SystemDiagnostics {
            overall_health,
            overall_score,
            coordinator_statuses: statuses,
            system_issues: issues,
            recommendations,
            check_timestamp_ms: start_ms,
            total_check_duration_ms: elapsed_ms(now_ms, start_ms),
        };
        let kept = d.duplicate();
        if self.diagnostics_history.len() >= self.max_history_size {
            self.diagnostics_history.remove(0);
        }
        let ghost before = self.diagnostics_history@;
        self.diagnostics_history.push(kept);
        proof {
            assert(self.diagnostics_history@.drop_last() =~= before);
        }
        d
    }

    /// The cached quick status at time `now_ms`, if one was cached less than the cache's
    /// time to live ago.
    pub fn get_cached_quick_status(&self, now_ms: u64) -> (r: Option<QuickHealthStatus>)
        ensures
            match self.cached() {
                Some(q) => if spec_elapsed(now_ms, q.computed_at_ms) < self.cache_ttl() {
                    r matches Some(c) && c.level == q.level && c.ready_coordinators == q.ready_coordinators
                        && c.total_coordinators == q.total_coordinators && c.computed_at_ms == q.computed_at_ms
                } else {
                    r is None
                },
                None => r is None,
            },
    {
        match &self.quick_status_cache {
            Some(q) => {
                if elapsed_ms(now_ms, q.computed_at_ms) < self.cache_ttl_ms {
                    Some(q.duplicate())
                } else {
                    None
                }
            },
            None => None,
        }
    }

    /// Computes the quick status of `total` coordinators from the readiness answers in
    /// `results` at `now_ms`, caches it and returns it.
    pub fn record_quick_status(&mut self, total: usize, results: &Vec<(String, bool)>, now_ms: u64) -> (q: QuickHealthStatus)
        ensures
            q.ready_coordinators == ready_answers(results@),
            q.total_coordinators == total,
            q.level == spec_quick_level(ready_answers(results@), total as nat),
            q.coordinator_readiness@.map_values(|x: (String, bool)| (x.0@, x.1)) == results@.map_values(|x: (String, bool)| (x.0@, x.1)),
            q.computed_at_ms == now_ms,
            final(self).cached() matches Some(c) && c.level == q.level && c.ready_coordinators == q.ready_coordinators
                && c.total_coordinators == q.total_coordinators && c.computed_at_ms == now_ms,
            final(self).history() == old(self).history(),
            final(self).history_limit() == old(self).history_limit(),
            final(self).cfg() == old(self).cfg(),
            final(self).is_on() == old(self).is_on(),
            final(self).cache_ttl() == old(self).cache_ttl(),
            final(self).checks_run() == old(self).checks_run(),
            final(self).checks_failed() == old(self).checks_failed(),
    {
        let q = QuickHealthStatus::from_readiness(total, results, now_ms);
        self.quick_status_cache = Some(q.duplicate());
        q
    }
}


/// When no coordinator is critical and more than half of them warn, the system as a whole is
/// at the Warning level, whatever the scores: never Healthy or Excellent.
pub proof fn lemma_mostly_warning_is_warning(s: Seq<(String, HealthStatus)>, config: HealthCheckConfig)
    requires
        count_level(s, HealthLevel::Critical) == 0,
        2 * count_level(s, HealthLevel::Warning) > s.len(),
    ensures
        spec_overall_level(s, config) == HealthLevel::Warning,
{
    lemma_sums_bounded(s);
}

} // verus!
