//! Start-up and shutdown of the orchestration system as a whole: which coordinators start
//! in which phase, what a phase's results mean, how long each coordinator may take to stop,
//! and the system's readiness flag.
//!
//! Initializing, probing and stopping the coordinators are asynchronous and happen outside
//! this library, which takes what they reported. Times are milliseconds.

use vstd::prelude::*;
use vstd::string::StringExecFns;

use crate::clock::{elapsed_ms, spec_elapsed};
use crate::words::word_views;

verus! {

/// The outcome of initializing one coordinator.
#[derive(Debug)]
pub struct InitializationResult {
    pub coordinator_name: String,
    pub success: bool,
    pub duration_ms: u64,
    pub error: Option<String>,
}

/// What initializing a coordinator reported.
#[derive(Debug)]
pub enum InitOutcome {
    Completed,
    /// It failed with this error text.
    Failed(String),
    /// It did not finish within the phase's timeout.
    TimedOut,
}

/// The result of initializing `name` in `duration_ms` with `outcome`; a timeout is
/// reported as the error `Timeout`.
pub fn initialization_result(name: &str, outcome: InitOutcome, duration_ms: u64) -> (r: InitializationResult)
    ensures
        r.coordinator_name@ == name@,
        r.duration_ms == duration_ms,
        r.success == (outcome is Completed),
        match outcome {
            InitOutcome::Completed => r.error is None,
            InitOutcome::Failed(e) => r.error == Some(e),
            InitOutcome::TimedOut => r.error matches Some(e) && e@ == "Timeout"@,
        },
{
    match outcome {
        InitOutcome::Completed => InitializationResult { coordinator_name: name.to_owned(), success: true, duration_ms, error: None },
        InitOutcome::Failed(e) => InitializationResult { coordinator_name: name.to_owned(), success: false, duration_ms, error: Some(e) },
        InitOutcome::TimedOut => InitializationResult {
            coordinator_name: name.to_owned(),
            success: false,
            duration_ms,
            error: Some("Timeout".to_owned()),
        },
    }
}

/// What debug formatting prints for a string: the text between double quotes, with
/// quotes, backslashes and control or unprintable characters escaped.
pub uninterp spec fn debug_quoted(s: Seq<char>) -> Seq<char>;

/// Formats `s` with std's `Debug` for `str` (`format!("{:?}", s)`). Its result depends on the
/// characters of `s` alone, and is given the name `debug_quoted`; which characters std
/// escapes, and how, is left unstated.
#[verifier::external_body]
fn debug_str(s: &str) -> (r: String)
    ensures
        r@ == debug_quoted(s@),
{
    format!("{:?}", s)
}

/// A list of names as debug formatting prints it: each name as debug formatting prints it,
/// separated by `, `, in brackets.
pub open spec fn quoted_list(names: Seq<Seq<char>>) -> Seq<char> {
    "["@ + quoted_items(names) + "]"@
}

/// The quoted names separated by `, `.
pub open spec fn quoted_items(names: Seq<Seq<char>>) -> Seq<char>
    decreases names.len(),
{
    if names.len() == 0 {
        Seq::empty()
    } else if names.len() == 1 {
        debug_quoted(names[0])
    } else {
        quoted_items(names.drop_last()) + ", "@ + debug_quoted(names.last())
    }
}

/// Names of the failed results, in order.
pub open spec fn failed_names(results: Seq<InitializationResult>) -> Seq<Seq<char>> {
    results.filter(|r: InitializationResult| !r.success).map_values(|r: InitializationResult| r.coordinator_name@)
}

/// The names as debug formatting prints a list of them: each name quoted and escaped,
/// separated by `, `, in brackets.
pub fn quoted_names(names: &Vec<String>) -> (s: String)
    ensures
        s@ == quoted_list(word_views(names@)),
{
    proof {
        reveal_strlit("[");
        reveal_strlit("]");
        reveal_strlit(", ");
    }
    let mut list = String::new();
    let mut i: usize = 0;
    while i < names.len()
        invariant
            i <= names@.len(),
            list@ == quoted_items(word_views(names@.take(i as int))),
        decreases names@.len() - i,
    {
        if i > 0 {
            list.append(", ");
        }
        let q = debug_str(names[i].as_str());
        list.append(q.as_str());
        proof {
            let ws = word_views(names@.take(i + 1));
            assert(ws.drop_last() =~= word_views(names@.take(i as int)));
            assert(ws.last() == names@[i as int]@);
            if i == 0 {
                assert(ws.len() == 1);
                assert(ws[0] == names@[0]@);
            }
            assert(list@ =~= quoted_items(ws));
        }
        i = i + 1;
    }
    proof {
        assert(names@.take(i as int) =~= names@);
    }
    let mut s = String::new();
    s.append("[");
    s.append(list.as_str());
    s.append("]");
    proof {
        assert(s@ =~= quoted_list(word_views(names@)));
    }
    s
}

/// The outcome of an initialization phase: success when every coordinator initialized,
/// otherwise an error naming the phase and the coordinators that failed.
pub fn group_outcome(phase_name: &str, results: &Vec<InitializationResult>) -> (r: Result<(), String>)
    ensures
        failed_names(results@).len() == 0 ==> r is Ok,
        failed_names(results@).len() > 0 ==> (r matches Err(e)
            && e@ == phase_name@ + ": Ошибка инициализации координаторов: "@ + quoted_list(failed_names(results@))),
{
    proof {
        reveal_strlit("[");
        reveal_strlit("]");
        reveal_strlit(", ");
    }
    let ghost pred = |r: InitializationResult| !r.success;
    let ghost f = |r: InitializationResult| r.coordinator_name@;
    let mut list = String::new();
    let mut count: usize = 0;
    let mut i: usize = 0;
    while i < results.len()
        invariant
            i <= results@.len(),
            pred == (|r: InitializationResult| !r.success),
            f == (|r: InitializationResult| r.coordinator_name@),
            count == results@.take(i as int).filter(pred).len(),
            list@ == quoted_items(results@.take(i as int).filter(pred).map_values(f)),
        decreases results@.len() - i,
    {
        let ghost before = list@;
        let ghost ft = results@.take(i as int).filter(pred);
        proof {
            assert(results@.take(i + 1) =~= results@.take(i as int).push(results@[i as int]));
            results@.take(i as int).lemma_filter_push(results@[i as int], pred);
            ft.lemma_filter_len(pred);
        }
        if !results[i].success {
            if count > 0 {
                list.append(", ");
            }
            let q = debug_str(results[i].coordinator_name.as_str());
            list.append(q.as_str());
            proof {
                let names = ft.push(results@[i as int]).map_values(f);
                assert(names.drop_last() =~= ft.map_values(f));
                assert(names.last() == results@[i as int].coordinator_name@);
                if count == 0 {
                    assert(ft.len() == 0);
                    assert(ft.map_values(f) =~= Seq::<Seq<char>>::empty());
                    assert(names.len() == 1);
                    assert(list@ =~= quoted_items(names));
                } else {
                    assert(list@ =~= quoted_items(names));
                }
            }
            count = count + 1;
        }
        i = i + 1;
    }
    proof {
        assert(results@.take(results@.len() as int) =~= results@);
    }
    if count == 0 {
        Ok(())
    } else {
        let mut e = String::new();
        e.append(phase_name);
        e.append(": Ошибка инициализации координаторов: ");
        e.append("[");
        e.append(list.as_str());
        e.append("]");
        proof {
            assert(e@ =~= phase_name@ + ": Ошибка инициализации координаторов: "@ + quoted_list(failed_names(results@)));
        }
        Err(e)
    }
}

/// The start-up phases: a name, the coordinators started in it, and their timeout.
pub open spec fn spec_initialization_phases() -> Seq<(Seq<char>, Seq<Seq<char>>, u64)> {
    seq![
        ("Phase 1: Critical Infrastructure"@, seq!["resources"@, "health"@], 30_000u64),
        ("Phase 2: Core Services"@, seq!["embedding"@, "search"@], 45_000u64),
        ("Phase 3: Background Services"@, seq!["promotion"@, "backup"@], 60_000u64),
    ]
}

/// The start-up phases, in order.
pub fn initialization_phases() -> (r: Vec<(&'static str, Vec<&'static str>, u64)>)
    ensures
        r@.len() == 3,
        forall|k: int| 0 <= k < 3 ==> (#[trigger] r@[k]).0@ == spec_initialization_phases()[k].0
            && r@[k].1@.map_values(|s: &str| s@) == spec_initialization_phases()[k].1
            && r@[k].2 == spec_initialization_phases()[k].2,
{
    let p1 = vec!["resources", "health"];
    let p2 = vec!["embedding", "search"];
    let p3 = vec!["promotion", "backup"];
    proof {
        assert(p1@.map_values(|s: &str| s@) =~= seq!["resources"@, "health"@]);
        assert(p2@.map_values(|s: &str| s@) =~= seq!["embedding"@, "search"@]);
        assert(p3@.map_values(|s: &str| s@) =~= seq!["promotion"@, "backup"@]);
    }
    vec![
        ("Phase 1: Critical Infrastructure", p1, 30_000),
        ("Phase 2: Core Services", p2, 45_000),
        ("Phase 3: Background Services", p3, 60_000),
    ]
}

/// The order of a graceful shutdown, the reverse of start-up, with each coordinator's
/// timeout.
pub open spec fn spec_shutdown_sequence() -> Seq<(Seq<char>, u64)> {
    seq![("backup"@, 60_000u64), ("promotion"@, 30_000u64), ("search"@, 15_000u64),
        ("embedding"@, 30_000u64), ("health"@, 15_000u64), ("resources"@, 15_000u64)]
}

/// The coordinators stopped in an emergency, with their short timeouts.
pub open spec fn spec_emergency_sequence() -> Seq<(Seq<char>, u64)> {
    seq![("backup"@, 5_000u64), ("promotion"@, 3_000u64), ("search"@, 2_000u64),
        ("embedding"@, 3_000u64), ("health"@, 2_000u64), ("resources"@, 2_000u64)]
}

/// The graceful shutdown order with timeouts.
pub fn shutdown_sequence() -> (r: Vec<(&'static str, u64)>)
    ensures
        r@.map_values(|p: (&str, u64)| (p.0@, p.1)) == spec_shutdown_sequence(),
{
    let r = vec![("backup", 60_000), ("promotion", 30_000), ("search", 15_000), ("embedding", 30_000), ("health", 15_000), ("resources", 15_000)];
    proof { assert(r@.map_values(|p: (&str, u64)| (p.0@, p.1)) =~= spec_shutdown_sequence()); }
    r
}

/// The emergency shutdown order with timeouts.
pub fn emergency_sequence() -> (r: Vec<(&'static str, u64)>)
    ensures
        r@.map_values(|p: (&str, u64)| (p.0@, p.1)) == spec_emergency_sequence(),
{
    let r = vec![("backup", 5_000), ("promotion", 3_000), ("search", 2_000), ("embedding", 3_000), ("health", 2_000), ("resources", 2_000)];
    proof { assert(r@.map_values(|p: (&str, u64)| (p.0@, p.1)) =~= spec_emergency_sequence()); }
    r
}

/// What start-up does after a readiness probe `elapsed_ms` into health verification.
#[derive(Debug, Clone, Copy, PartialEq, Eq, Structural)]
pub enum ReadinessStep {
    /// Every coordinator is ready.
    Ready,
    /// Probe again after this pause.
    ProbeAgainAfter(u64),
    /// The 30 s allowed have passed and not every coordinator is ready.
    NotReady,
}

/// The step after a probe: ready when every coordinator is, another probe after 500 ms while
/// less than 30 s have passed, not ready otherwise.
pub fn readiness_step(elapsed_ms: u64, all_ready: bool) -> (s: ReadinessStep)
    ensures
        s == (if all_ready {
            ReadinessStep::Ready
        } else if elapsed_ms < 30_000 {
            ReadinessStep::ProbeAgainAfter(500)
        } else {
            ReadinessStep::NotReady
        }),
{
    if all_ready {
        ReadinessStep::Ready
    } else if elapsed_ms < 30_000 {
        ReadinessStep::ProbeAgainAfter(500)
    } else {
        ReadinessStep::NotReady
    }
}

/// The state of the orchestration system's lifecycle.
#[derive(Debug, Clone, Copy, PartialEq, Eq, Structural)]
pub struct OrchestrationLifecycleManager {
    ready: bool,
    emergency_shutdown: bool,
    start_time_ms: u64,
}

impl OrchestrationLifecycleManager {
    pub closed spec fn is_on(&self) -> bool {
        self.ready
    }

    pub closed spec fn in_emergency(&self) -> bool {
        self.emergency_shutdown
    }

    pub closed spec fn started_at(&self) -> u64 {
        self.start_time_ms
    }

    /// A system started at `now_ms`, not ready, not in emergency.
    pub fn new(now_ms: u64) -> (m: Self)
        ensures
            !m.is_on(),
            !m.in_emergency(),
            m.started_at() == now_ms,
    {
        OrchestrationLifecycleManager { ready: false, emergency_shutdown: false, start_time_ms: now_ms }
    }

    /// Whether the system is ready.
    pub fn is_ready(&self) -> (b: bool)
        ensures
            b == self.is_on(),
    {
        self.ready
    }

    /// Whether the background tasks were told to stop.
    pub fn is_emergency_shutdown(&self) -> (b: bool)
        ensures
            b == self.in_emergency(),
    {
        self.emergency_shutdown
    }

    /// Milliseconds since start-up, at `now_ms`.
    pub fn get_uptime(&self, now_ms: u64) -> (u: u64)
        ensures
            u == spec_elapsed(now_ms, self.started_at()),
    {
        elapsed_ms(now_ms, self.start_time_ms)
    }

    /// Whether start-up should run: not when the system is already ready.
    pub fn needs_initialization(&self) -> (b: bool)
        ensures
            b == !self.is_on(),
    {
        !self.ready
    }

    /// Marks the end of a successful start-up: the system is ready.
    pub fn finish_initialization(&mut self)
        ensures
            final(self).is_on(),
            final(self).in_emergency() == old(self).in_emergency(),
            final(self).started_at() == old(self).started_at(),
    {
        self.ready = true;
    }

    /// One readiness tick: the system is ready exactly when every coordinator is.
    pub fn readiness_tick(&mut self, all_ready: bool)
        ensures
            final(self).is_on() == all_ready,
            final(self).in_emergency() == old(self).in_emergency(),
            final(self).started_at() == old(self).started_at(),
    {
        if !all_ready && self.ready {
            self.ready = false;
        } else if all_ready && !self.ready {
            self.ready = true;
        }
    }

    /// Begins a graceful shutdown: the system is no longer ready and the background tasks
    /// are told to stop.
    pub fn begin_shutdown(&mut self)
        ensures
            !final(self).is_on(),
            final(self).in_emergency(),
            final(self).started_at() == old(self).started_at(),
    {
        self.ready = false;
        self.emergency_shutdown = true;
    }

    /// Begins an emergency shutdown: the same flags as a graceful one.
    pub fn emergency_shutdown(&mut self)
        ensures
            !final(self).is_on(),
            final(self).in_emergency(),
            final(self).started_at() == old(self).started_at(),
    {
        self.emergency_shutdown = true;
        self.ready = false;
    }
}

} // verus!
