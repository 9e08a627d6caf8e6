//! Lifecycle of the orchestrator: phases of start-up and shutdown, and the state of every
//! registered component.
//!
//! Starting coordinators, waiting for them with timeouts and sleeping between readiness
//! checks happen outside this library; the manager here records what those steps report
//! and decides what comes next. Times are milliseconds.

use vstd::prelude::*;
use vstd::string::StringExecFns;

use crate::clock::{elapsed_ms, spec_elapsed};
use crate::orchestration::health_checker::{duration_text, push_duration};
use crate::orchestration::orchestration_lifecycle_manager::{quoted_list, quoted_names};
use crate::text::{decimal, push_decimal};
use crate::words::word_views;

verus! {

/// Phases of the lifecycle.
#[derive(Debug, Clone, Copy, PartialEq, Eq, Structural)]
pub enum LifecyclePhase {
    Uninitialized,
    CriticalInfrastructure,
    CoreServices,
    BackgroundServices,
    HealthVerification,
    BackgroundTasks,
    Ready,
    ShuttingDown,
    Stopped,
}

/// The name of a phase, as it is printed.
pub open spec fn phase_name(p: LifecyclePhase) -> Seq<char> {
    match p {
        LifecyclePhase::Uninitialized => "Uninitialized"@,
        LifecyclePhase::CriticalInfrastructure => "CriticalInfrastructure"@,
        LifecyclePhase::CoreServices => "CoreServices"@,
        LifecyclePhase::BackgroundServices => "BackgroundServices"@,
        LifecyclePhase::HealthVerification => "HealthVerification"@,
        LifecyclePhase::BackgroundTasks => "BackgroundTasks"@,
        LifecyclePhase::Ready => "Ready"@,
        LifecyclePhase::ShuttingDown => "ShuttingDown"@,
        LifecyclePhase::Stopped => "Stopped"@,
    }
}

impl LifecyclePhase {
    /// The name of the phase.
    pub fn name(&self) -> (s: &'static str)
        ensures
            s@ == phase_name(*self),
    {
        proof {
            reveal_strlit("Uninitialized");
            reveal_strlit("CriticalInfrastructure");
            reveal_strlit("CoreServices");
            reveal_strlit("BackgroundServices");
            reveal_strlit("HealthVerification");
            reveal_strlit("BackgroundTasks");
            reveal_strlit("Ready");
            reveal_strlit("ShuttingDown");
            reveal_strlit("Stopped");
        }
        match self {
            LifecyclePhase::Uninitialized => "Uninitialized",
            LifecyclePhase::CriticalInfrastructure => "CriticalInfrastructure",
            LifecyclePhase::CoreServices => "CoreServices",
            LifecyclePhase::BackgroundServices => "BackgroundServices",
            LifecyclePhase::HealthVerification => "HealthVerification",
            LifecyclePhase::BackgroundTasks => "BackgroundTasks",
            LifecyclePhase::Ready => "Ready",
            LifecyclePhase::ShuttingDown => "ShuttingDown",
            LifecyclePhase::Stopped => "Stopped",
        }
    }
}

/// State of one component in the lifecycle.
#[derive(Debug)]
pub struct ComponentLifecycleState {
    pub name: String,
    pub phase: LifecyclePhase,
    pub initialized: bool,
    pub ready: bool,
    pub healthy: bool,
    /// When the last health check started (milliseconds), if any.
    pub last_health_check_ms: Option<u64>,
    /// How long initialization took (milliseconds), once it ran.
    pub initialization_time_ms: Option<u64>,
    pub error_message: Option<String>,
}

/// A freshly registered component named `name`.
pub open spec fn fresh_component(name: Seq<char>, c: ComponentLifecycleState) -> bool {
    &&& c.name@ == name
    &&& c.phase == LifecyclePhase::Uninitialized
    &&& !c.initialized
    &&& !c.ready
    &&& !c.healthy
    &&& c.last_health_check_ms is None
    &&& c.initialization_time_ms is None
    &&& c.error_message is None
}

/// `a` and `b` hold the same component state (their strings by content).
pub open spec fn same_state(a: ComponentLifecycleState, b: ComponentLifecycleState) -> bool {
    &&& a.name@ == b.name@
    &&& a.phase == b.phase
    &&& a.initialized == b.initialized
    &&& a.ready == b.ready
    &&& a.healthy == b.healthy
    &&& a.last_health_check_ms == b.last_health_check_ms
    &&& a.initialization_time_ms == b.initialization_time_ms
    &&& a.error_message == b.error_message
}

impl ComponentLifecycleState {
    /// A fresh, uninitialized component.
    pub fn new(name: String) -> (c: Self)
        ensures
            fresh_component(name@, c),
    {
        ComponentLifecycleState {
            name,
            phase: LifecyclePhase::Uninitialized,
            initialized: false,
            ready: false,
            healthy: false,
            last_health_check_ms: None,
            initialization_time_ms: None,
            error_message: None,
        }
    }

    /// A copy of this state.
    pub fn duplicate(&self) -> (c: Self)
        ensures
            same_state(c, *self),
    {
        ComponentLifecycleState {
            name: self.name.clone(),
            phase: self.phase,
            initialized: self.initialized,
            ready: self.ready,
            healthy: self.healthy,
            last_health_check_ms: self.last_health_check_ms,
            initialization_time_ms: self.initialization_time_ms,
            error_message: self.error_message.clone(),
        }
    }
}

/// Timeouts and intervals of the lifecycle, in milliseconds.
#[derive(Debug, Clone, Copy)]
pub struct LifecycleConfig {
    pub critical_infrastructure_timeout_ms: u64,
    pub core_services_timeout_ms: u64,
    pub background_services_timeout_ms: u64,
    pub health_verification_timeout_ms: u64,
    pub shutdown_timeout_ms: u64,
    /// Pause between two readiness checks.
    pub readiness_check_interval_ms: u64,
    /// Longest wait for every component to become ready.
    pub max_readiness_wait_time_ms: u64,
}

impl Default for LifecycleConfig {
    /// 30 s, 45 s and 60 s for the start-up phases, 30 s for health verification, 60 s for
    /// shutdown, checks every 500 ms, at most 120 s of waiting for readiness.
    fn default() -> (c: Self)
        ensures
            c.critical_infrastructure_timeout_ms == 30_000,
            c.core_services_timeout_ms == 45_000,
            c.background_services_timeout_ms == 60_000,
            c.health_verification_timeout_ms == 30_000,
            c.shutdown_timeout_ms == 60_000,
            c.readiness_check_interval_ms == 500,
            c.max_readiness_wait_time_ms == 120_000,
    {
        LifecycleConfig {
            critical_infrastructure_timeout_ms: 30_000,
            core_services_timeout_ms: 45_000,
            background_services_timeout_ms: 60_000,
            health_verification_timeout_ms: 30_000,
            shutdown_timeout_ms: 60_000,
            readiness_check_interval_ms: 500,
            max_readiness_wait_time_ms: 120_000,
        }
    }
}

/// What health verification does after one round of checks.
#[derive(Debug, Clone, Copy, PartialEq, Eq, Structural)]
pub enum VerificationStep {
    /// Every component is ready and healthy: verification succeeded.
    Done,
    /// Sleep this long, then look at the time again.
    CheckAgainAfter(u64),
}

/// The position of the component named `name`, if registered.
pub open spec fn comp_index(s: Seq<ComponentLifecycleState>, name: Seq<char>) -> Option<int> {
    if exists|i: int| 0 <= i < s.len() && (#[trigger] s[i]).name@ == name {
        Some(choose|i: int| 0 <= i < s.len() && (#[trigger] s[i]).name@ == name)
    } else {
        None
    }
}

/// Names of `s` are pairwise distinct.
pub open spec fn distinct_components(s: Seq<ComponentLifecycleState>) -> bool {
    forall|i: int, j: int| 0 <= i < s.len() && 0 <= j < s.len() && i != j ==> (#[trigger] s[i]).name@ != (#[trigger] s[j]).name@
}

proof fn lemma_comp_index(s: Seq<ComponentLifecycleState>, i: int)
    requires
        distinct_components(s),
        0 <= i < s.len(),
    ensures
        comp_index(s, s[i].name@) == Some(i),
{
}

/// `s2` is `s1` with the component at position `i` replaced by one of the same name.
pub open spec fn replaced_at(s1: Seq<ComponentLifecycleState>, s2: Seq<ComponentLifecycleState>, i: int) -> bool {
    &&& s2.len() == s1.len()
    &&& 0 <= i < s1.len()
    &&& s2[i].name@ == s1[i].name@
    &&& forall|k: int| 0 <= k < s1.len() && k != i ==> #[trigger] s2[k] == s1[k]
}

proof fn lemma_replaced_keeps_names(s1: Seq<ComponentLifecycleState>, s2: Seq<ComponentLifecycleState>, i: int)
    requires
        distinct_components(s1),
        replaced_at(s1, s2, i),
    ensures
        distinct_components(s2),
        forall|n: Seq<char>| #[trigger] comp_index(s2, n) == comp_index(s1, n),
{
    assert forall|a: int, b: int| 0 <= a < s2.len() && 0 <= b < s2.len() && a != b
        implies (#[trigger] s2[a]).name@ != (#[trigger] s2[b]).name@ by {
        assert(s1[a].name@ != s1[b].name@);
    }
    assert forall|n: Seq<char>| #[trigger] comp_index(s2, n) == comp_index(s1, n) by {
        if exists|k: int| 0 <= k < s2.len() && (#[trigger] s2[k]).name@ == n {
            let k = choose|k: int| 0 <= k < s2.len() && (#[trigger] s2[k]).name@ == n;
            lemma_comp_index(s2, k);
            lemma_comp_index(s1, k);
        } else {
            assert forall|k: int| 0 <= k < s1.len() implies (#[trigger] s1[k]).name@ != n by {
                assert(s2[k].name@ != n);
            }
        }
    }
}

/// Lifecycle manager of the orchestrator.
pub struct LifecycleManager {
    config: LifecycleConfig,
    current_phase: LifecyclePhase,
    components: Vec<ComponentLifecycleState>,
    start_time_ms: u64,
}

impl LifecycleManager {
    /// The registered components, in registration order.
    pub closed spec fn components_view(&self) -> Seq<ComponentLifecycleState> {
        self.components@
    }

    /// The timeouts and intervals the manager runs with.
    pub closed spec fn cfg(&self) -> LifecycleConfig {
        self.config
    }

    /// The current phase.
    pub closed spec fn phase(&self) -> LifecyclePhase {
        self.current_phase
    }

    /// When the manager was created (milliseconds).
    pub closed spec fn started_at(&self) -> u64 {
        self.start_time_ms
    }

    /// Every component has its own name.
    pub closed spec fn wf(&self) -> bool {
        distinct_components(self.components@)
    }

    /// The position of the component named `name`, if registered.
    pub open spec fn index_of(&self, name: Seq<char>) -> Option<int> {
        comp_index(self.components_view(), name)
    }

    /// A manager in phase `Uninitialized` with no components, started at `now_ms`.
    pub fn new(config: LifecycleConfig, now_ms: u64) -> (m: Self)
        ensures
            m.wf(),
            m.cfg() == config,
            m.phase() == LifecyclePhase::Uninitialized,
            m.components_view().len() == 0,
            m.started_at() == now_ms,
    {
        LifecycleManager { config, current_phase: LifecyclePhase::Uninitialized, components: Vec::new(), start_time_ms: now_ms }
    }

    fn find(&self, name: &str) -> (r: Option<usize>)
        requires
            self.wf(),
        ensures
            match r {
                Some(i) => i < self.components@.len() && self.index_of(name@) == Some(i as int),
                None => self.index_of(name@) is None,
            },
    {
        let key = name.to_owned();
        let mut i: usize = 0;
        while i < self.components.len()
            invariant
                i <= self.components@.len(),
                key@ == name@,
                distinct_components(self.components@),
                forall|k: int| 0 <= k < i ==> (#[trigger] self.components@[k]).name@ != key@,
            decreases self.components@.len() - i,
        {
            if self.components[i].name == key {
                proof {
                    assert(self.components@[i as int].name@ == name@);
                    lemma_comp_index(self.components@, i as int);
                }
                return Some(i);
            }
            i = i + 1;
        }
        None
    }

    /// Registers `name` with a fresh, uninitialized state; a component already registered under
    /// that name is reset to a fresh state.
    pub fn register_component(&mut self, name: String)
        requires
            old(self).wf(),
        ensures
            final(self).wf(),
            final(self).phase() == old(self).phase(),
            final(self).cfg() == old(self).cfg(),
            final(self).started_at() == old(self).started_at(),
            final(self).index_of(name@) is Some,
            fresh_component(name@, final(self).components_view()[final(self).index_of(name@)->0]),
            forall|n: Seq<char>| n != name@ ==> #[trigger] final(self).index_of(n) == old(self).index_of(n),
            match old(self).index_of(name@) {
                Some(i) => replaced_at(old(self).components_view(), final(self).components_view(), i),
                None => final(self).components_view().drop_last() == old(self).components_view(),
            },
    {
        let ghost nm = name@;
        let fresh = ComponentLifecycleState::new(name);
        match self.find(fresh.name.as_str()) {
            Some(i) => {
                let ghost before = self.components@;
                self.components.set(i, fresh);
                proof {
                    assert(replaced_at(before, self.components@, i as int));
                    lemma_replaced_keeps_names(before, self.components@, i as int);
                }
            },
            None => {
                let ghost before = self.components@;
                self.components.push(fresh);
                proof {
                    let s = self.components@;
                    let last = before.len() as int;
                    assert forall|k: int| 0 <= k < before.len() implies (#[trigger] before[k]).name@ != nm by {
                        if before[k].name@ == nm {
                            assert(comp_index(before, nm) is Some);
                        }
                    }
                    assert forall|a: int, b: int| 0 <= a < s.len() && 0 <= b < s.len() && a != b
                        implies (#[trigger] s[a]).name@ != (#[trigger] s[b]).name@ by {
                        if a < last && b < last {
                            assert(before[a].name@ != before[b].name@);
                        }
                    }
                    lemma_comp_index(s, last);
                    assert forall|n: Seq<char>| n != nm implies #[trigger] comp_index(s, n) == comp_index(before, n) by {
                        if exists|k: int| 0 <= k < s.len() && (#[trigger] s[k]).name@ == n {
                            let k = choose|k: int| 0 <= k < s.len() && (#[trigger] s[k]).name@ == n;
                            lemma_comp_index(s, k);
                            lemma_comp_index(before, k);
                        } else {
                            assert forall|k: int| 0 <= k < before.len() implies (#[trigger] before[k]).name@ != n by {
                                assert(s[k].name@ != n);
                            }
                        }
                    }
                    assert(s.drop_last() =~= before);
                }
            },
        }
    }

    /// The timeouts and intervals the manager runs with.
    pub fn config(&self) -> (c: LifecycleConfig)
        ensures
            c == self.cfg(),
    {
        self.config
    }

    /// The current phase.
    pub fn current_phase(&self) -> (p: LifecyclePhase)
        ensures
            p == self.phase(),
    {
        self.current_phase
    }

    /// Moves the lifecycle to `phase`.
    pub fn set_phase(&mut self, phase: LifecyclePhase)
        ensures
            final(self).phase() == phase,
            final(self).components_view() == old(self).components_view(),
            final(self).cfg() == old(self).cfg(),
            final(self).started_at() == old(self).started_at(),
            final(self).wf() == old(self).wf(),
    {
        self.current_phase = phase;
    }

    /// Whether the orchestrator accepts requests: only in phase `Ready`.
    pub fn is_accepting_requests(&self) -> (r: bool)
        ensures
            r == (self.phase() == LifecyclePhase::Ready),
    {
        match self.current_phase {
            LifecyclePhase::Ready => true,
            _ => false,
        }
    }

    /// Milliseconds since the manager was created, at time `now_ms`.
    pub fn uptime_ms(&self, now_ms: u64) -> (u: u64)
        ensures
            u == spec_elapsed(now_ms, self.started_at()),
    {
        elapsed_ms(now_ms, self.start_time_ms)
    }

    /// The number of registered components.
    pub fn component_count(&self) -> (n: usize)
        ensures
            n == self.components_view().len(),
    {
        self.components.len()
    }

    /// A copy of the state of the component `name`, if registered.
    pub fn get_component_state(&self, name: &str) -> (r: Option<ComponentLifecycleState>)
        requires
            self.wf(),
        ensures
            match self.index_of(name@) {
                Some(i) => r is Some && same_state(r->0, self.components_view()[i]),
                None => r is None,
            },
    {
        match self.find(name) {
            Some(i) => Some(self.components[i].duplicate()),
            None => None,
        }
    }

    /// Copies of the states of all components, in registration order.
    pub fn get_component_states(&self) -> (r: Vec<ComponentLifecycleState>)
        ensures
            r@.len() == self.components_view().len(),
            forall|k: int| 0 <= k < r@.len() ==> same_state(#[trigger] r@[k], self.components_view()[k]),
    {
        let mut out: Vec<ComponentLifecycleState> = Vec::new();
        let mut i: usize = 0;
        while i < self.components.len()
            invariant
                i <= self.components@.len(),
                out@.len() == i,
                forall|k: int| 0 <= k < i ==> same_state(#[trigger] out@[k], self.components@[k]),
            decreases self.components@.len() - i,
        {
            out.push(self.components[i].duplicate());
            i = i + 1;
        }
        out
    }

    /// Records that the component `name` entered `phase` (nothing happens for an unknown name).
    pub fn mark_component_phase(&mut self, name: &str, phase: LifecyclePhase)
        requires
            old(self).wf(),
        ensures
            final(self).wf(),
            final(self).phase() == old(self).phase(),
            final(self).cfg() == old(self).cfg(),
            final(self).started_at() == old(self).started_at(),
            match old(self).index_of(name@) {
                Some(i) => replaced_at(old(self).components_view(), final(self).components_view(), i)
                    && ({
                        let (a, b) = (old(self).components_view()[i], final(self).components_view()[i]);
                        b.phase == phase && b.initialized == a.initialized && b.ready == a.ready && b.healthy == a.healthy
                            && b.last_health_check_ms == a.last_health_check_ms
                            && b.initialization_time_ms == a.initialization_time_ms && b.error_message == a.error_message
                    }),
                None => final(self).components_view() == old(self).components_view(),
            },
    {
        match self.find(name) {
            Some(i) => {
                let ghost before = self.components@;
                self.components[i].phase = phase;
                proof {
                    assert(replaced_at(before, self.components@, i as int));
                    lemma_replaced_keeps_names(before, self.components@, i as int);
                }
            },
            None => {},
        }
    }

    /// Records the end of the initialization of `name`: how long it took and its outcome
    /// (`None` for success, the error text otherwise). A success marks the component initialized
    /// and clears its error; a failure marks it not initialized and keeps the error.
    pub fn record_initialization(&mut self, name: &str, duration_ms: u64, error: Option<String>)
        requires
            old(self).wf(),
        ensures
            final(self).wf(),
            final(self).phase() == old(self).phase(),
            final(self).cfg() == old(self).cfg(),
            final(self).started_at() == old(self).started_at(),
            match old(self).index_of(name@) {
                Some(i) => replaced_at(old(self).components_view(), final(self).components_view(), i)
                    && ({
                        let (a, b) = (old(self).components_view()[i], final(self).components_view()[i]);
                        &&& b.initialization_time_ms == Some(duration_ms)
                        &&& b.initialized == (error is None)
                        &&& b.error_message == error
                        &&& b.phase == a.phase && b.ready == a.ready && b.healthy == a.healthy
                        &&& b.last_health_check_ms == a.last_health_check_ms
                    }),
                None => final(self).components_view() == old(self).components_view(),
            },
    {
        match self.find(name) {
            Some(i) => {
                let ghost before = self.components@;
                self.components[i].initialization_time_ms = Some(duration_ms);
                self.components[i].initialized = error.is_none();
                self.components[i].error_message = error;
                proof {
                    assert(replaced_at(before, self.components@, i as int));
                    lemma_replaced_keeps_names(before, self.components@, i as int);
                }
            },
            None => {},
        }
    }

    /// Records one readiness and health check of `name` that started at `at_ms`.
    pub fn record_health_check(&mut self, name: &str, ready: bool, healthy: bool, at_ms: u64)
        requires
            old(self).wf(),
        ensures
            final(self).wf(),
            final(self).phase() == old(self).phase(),
            final(self).cfg() == old(self).cfg(),
            final(self).started_at() == old(self).started_at(),
            match old(self).index_of(name@) {
                Some(i) => replaced_at(old(self).components_view(), final(self).components_view(), i)
                    && ({
                        let (a, b) = (old(self).components_view()[i], final(self).components_view()[i]);
                        &&& b.ready == ready && b.healthy == healthy && b.last_health_check_ms == Some(at_ms)
                        &&& b.phase == a.phase && b.initialized == a.initialized
                        &&& b.initialization_time_ms == a.initialization_time_ms && b.error_message == a.error_message
                    }),
                None => final(self).components_view() == old(self).components_view(),
            },
    {
        match self.find(name) {
            Some(i) => {
                let ghost before = self.components@;
                self.components[i].ready = ready;
                self.components[i].healthy = healthy;
                self.components[i].last_health_check_ms = Some(at_ms);
                proof {
                    assert(replaced_at(before, self.components@, i as int));
                    lemma_replaced_keeps_names(before, self.components@, i as int);
                }
            },
            None => {},
        }
    }

    /// Records that `name` was shut down: it is neither ready nor healthy any more.
    pub fn mark_component_stopped(&mut self, name: &str)
        requires
            old(self).wf(),
        ensures
            final(self).wf(),
            final(self).phase() == old(self).phase(),
            final(self).cfg() == old(self).cfg(),
            final(self).started_at() == old(self).started_at(),
            match old(self).index_of(name@) {
                Some(i) => replaced_at(old(self).components_view(), final(self).components_view(), i)
                    && ({
                        let (a, b) = (old(self).components_view()[i], final(self).components_view()[i]);
                        &&& !b.ready && !b.healthy
                        &&& b.phase == a.phase && b.initialized == a.initialized
                        &&& b.last_health_check_ms == a.last_health_check_ms
                        &&& b.initialization_time_ms == a.initialization_time_ms && b.error_message == a.error_message
                    }),
                None => final(self).components_view() == old(self).components_view(),
            },
    {
        match self.find(name) {
            Some(i) => {
                let ghost before = self.components@;
                self.components[i].ready = false;
                self.components[i].healthy = false;
                proof {
                    assert(replaced_at(before, self.components@, i as int));
                    lemma_replaced_keeps_names(before, self.components@, i as int);
                }
            },
            None => {},
        }
    }

    /// Finishes a graceful shutdown after the components in `stopped` were shut down: each of
    /// them is marked neither ready nor healthy and the lifecycle moves to `Stopped`.
    pub fn finish_shutdown(&mut self, stopped: &Vec<String>)
        requires
            old(self).wf(),
        ensures
            final(self).wf(),
            final(self).phase() == LifecyclePhase::Stopped,
            final(self).components_view().len() == old(self).components_view().len(),
            forall|n: Seq<char>| #[trigger] final(self).index_of(n) == old(self).index_of(n),
            forall|k: int| 0 <= k < stopped@.len() && (#[trigger] final(self).index_of(stopped@[k]@)) is Some ==> {
                let c = final(self).components_view()[final(self).index_of(stopped@[k]@)->0];
                !c.ready && !c.healthy
            },
    {
        let ghost orig = self.components@;
        let mut j: usize = 0;
        while j < stopped.len()
            invariant
                j <= stopped@.len(),
                distinct_components(self.components@),
                self.components@.len() == orig.len(),
                forall|n: Seq<char>| #[trigger] comp_index(self.components@, n) == comp_index(orig, n),
                forall|k: int| 0 <= k < j && (#[trigger] comp_index(self.components@, stopped@[k]@)) is Some ==> {
                    let c = self.components@[comp_index(self.components@, stopped@[k]@)->0];
                    !c.ready && !c.healthy
                },
            decreases stopped@.len() - j,
        {
            let ghost before = self.components@;
            self.mark_component_stopped(stopped[j].as_str());
            proof {
                if comp_index(before, stopped@[j as int]@) is Some {
                    lemma_replaced_keeps_names(before, self.components@, comp_index(before, stopped@[j as int]@)->0);
                }
                assert forall|k: int| 0 <= k < j + 1 && (#[trigger] comp_index(self.components@, stopped@[k]@)) is Some implies {
                    let c = self.components@[comp_index(self.components@, stopped@[k]@)->0];
                    !c.ready && !c.healthy
                } by {
                    if k < j {
                        let idx = comp_index(before, stopped@[k]@)->0;
                        if comp_index(before, stopped@[j as int]@) is Some {
                            let jdx = comp_index(before, stopped@[j as int]@)->0;
                            if idx != jdx {
                                assert(self.components@[idx] == before[idx]);
                            }
                        }
                    }
                }
            }
            j = j + 1;
        }
        self.current_phase = LifecyclePhase::Stopped;
    }

    /// Whether health verification runs another round of checks, `elapsed_ms` after it
    /// started: only while the verification timeout has not passed. When it has, verification
    /// fails without checking again.
    pub fn verification_continues(&self, elapsed_ms: u64) -> (r: bool)
        ensures
            r == (elapsed_ms < self.cfg().health_verification_timeout_ms),
    {
        elapsed_ms < self.config.health_verification_timeout_ms
    }

    /// The next step of health verification after a round of checks: done when every
    /// component is ready and healthy, otherwise wait the readiness interval before the time
    /// is looked at again.
    pub fn verification_step(&self, all_ready: bool, all_healthy: bool) -> (s: VerificationStep)
        ensures
            s == (if all_ready && all_healthy {
                VerificationStep::Done
            } else {
                VerificationStep::CheckAgainAfter(self.cfg().readiness_check_interval_ms)
            }),
    {
        if all_ready && all_healthy {
            VerificationStep::Done
        } else {
            VerificationStep::CheckAgainAfter(self.config.readiness_check_interval_ms)
        }
    }

    /// Names of the components that are not ready, in registration order.
    pub fn not_ready_components(&self) -> (r: Vec<String>)
        ensures
            r@.map_values(|s: String| s@) == self.components_view().filter(|c: ComponentLifecycleState| !c.ready).map_values(|c: ComponentLifecycleState| c.name@),
    {
        collect_names(&self.components, false)
    }

    /// Names of the components that are not healthy, in registration order.
    pub fn not_healthy_components(&self) -> (r: Vec<String>)
        ensures
            r@.map_values(|s: String| s@) == self.components_view().filter(|c: ComponentLifecycleState| !c.healthy).map_values(|c: ComponentLifecycleState| c.name@),
    {
        collect_names(&self.components, true)
    }

    /// The error of a health verification that timed out: the components that are not ready
    /// and those that are not healthy, in registration order.
    pub fn verification_failure_message(&self) -> (m: String)
        ensures
            m@ == "Не все компоненты готовы после таймаута. Не готовы: "@
                + quoted_list(self.components_view().filter(|c: ComponentLifecycleState| !c.ready).map_values(|c: ComponentLifecycleState| c.name@))
                + ", Нездоровы: "@
                + quoted_list(self.components_view().filter(|c: ComponentLifecycleState| !c.healthy).map_values(|c: ComponentLifecycleState| c.name@)),
    {
        let not_ready = self.not_ready_components();
        let not_healthy = self.not_healthy_components();
        let mut m = String::from_str("Не все компоненты готовы после таймаута. Не готовы: ");
        m.append(quoted_names(&not_ready).as_str());
        m.append(", Нездоровы: ");
        m.append(quoted_names(&not_healthy).as_str());
        proof {
            assert(word_views(not_ready@) =~= not_ready@.map_values(|s: String| s@));
            assert(word_views(not_healthy@) =~= not_healthy@.map_values(|s: String| s@));
        }
        m
    }

    /// A printable summary: the phase, the uptime at `now_ms`, and every component with its
    /// status, in registration order.
    pub fn get_lifecycle_stats(&self, now_ms: u64) -> (s: String)
        ensures
            s@ == lifecycle_stats_text(self.phase(), spec_elapsed(now_ms, self.started_at()) as nat, self.components_view(), now_ms),
    {
        let mut stats = String::new();
        stats.append("=== Lifecycle Manager Statistics ===\n\n");
        stats.append("Current Phase: ");
        stats.append(self.current_phase.name());
        stats.append("\nUptime: ");
        push_decimal(&mut stats, elapsed_ms(now_ms, self.start_time_ms));
        stats.append("ms\nTotal Components: ");
        push_decimal(&mut stats, self.components.len() as u64);
        stats.append("\n\nComponent States:\n");
        let ghost header = stats@;
        proof {
            assert(header =~= stats_header(self.phase(), spec_elapsed(now_ms, self.started_at()) as nat, self.components_view().len()));
        }
        let mut i: usize = 0;
        while i < self.components.len()
            invariant
                i <= self.components@.len(),
                stats@ == header + components_stats_text(self.components@.take(i as int), now_ms),
            decreases self.components@.len() - i,
        {
            let ghost before = stats@;
            push_component_stats(&mut stats, &self.components[i], now_ms);
            proof {
                assert(self.components@.take(i + 1).drop_last() =~= self.components@.take(i as int));
                assert(stats@ =~= header + components_stats_text(self.components@.take(i + 1), now_ms));
            }
            i = i + 1;
        }
        proof {
            assert(self.components@.take(i as int) =~= self.components@);
        }
        stats
    }
}

/// `true` or `false`, as printed.
pub open spec fn bool_name(b: bool) -> Seq<char> {
    if b { "true"@ } else { "false"@ }
}

/// The first line of a component in the summary: its mark, name, phase and flags.
pub open spec fn component_flags_text(c: ComponentLifecycleState) -> Seq<char> {
    "├─ "@ + spec_status_icon(c) + " "@ + c.name@ + ": Phase="@ + phase_name(c.phase) + ", Init="@ + bool_name(c.initialized)
        + ", Ready="@ + bool_name(c.ready) + ", Healthy="@ + bool_name(c.healthy) + "\n"@
}

/// The line of a component's initialization time, when known.
pub open spec fn init_time_text(c: ComponentLifecycleState) -> Seq<char> {
    match c.initialization_time_ms {
        Some(t) => "   ├─ Init time: "@ + decimal(t as nat) + "ms\n"@,
        None => Seq::empty(),
    }
}

/// The line of the age of a component's last health check at `now`, when there was one.
pub open spec fn check_age_text(c: ComponentLifecycleState, now: u64) -> Seq<char> {
    match c.last_health_check_ms {
        Some(t) => "   ├─ Last health check: "@ + decimal(spec_elapsed(now, t) as nat) + "ms ago\n"@,
        None => Seq::empty(),
    }
}

/// The line of a component's error, when it has one.
pub open spec fn error_line_text(c: ComponentLifecycleState) -> Seq<char> {
    match c.error_message {
        Some(e) => "   └─ Error: "@ + e@ + "\n"@,
        None => Seq::empty(),
    }
}

/// The lines of one component in the summary: its flags, then its initialization time, the
/// age of its last health check at `now`, and its error, each when known.
pub open spec fn component_stats_text(c: ComponentLifecycleState, now: u64) -> Seq<char> {
    component_flags_text(c) + init_time_text(c) + check_age_text(c, now) + error_line_text(c)
}

/// The lines of all components, in order.
pub open spec fn components_stats_text(cs: Seq<ComponentLifecycleState>, now: u64) -> Seq<char>
    decreases cs.len(),
{
    if cs.len() == 0 {
        Seq::empty()
    } else {
        components_stats_text(cs.drop_last(), now) + component_stats_text(cs.last(), now)
    }
}

/// The head of the summary: the phase, the uptime (milliseconds) and the number of components.
pub open spec fn stats_header(phase: LifecyclePhase, uptime: nat, count: nat) -> Seq<char> {
    "=== Lifecycle Manager Statistics ===\n\n"@ + "Current Phase: "@ + phase_name(phase) + "\nUptime: "@ + decimal(uptime)
        + "ms\nTotal Components: "@ + decimal(count) + "\n\nComponent States:\n"@
}

/// The whole summary.
pub open spec fn lifecycle_stats_text(phase: LifecyclePhase, uptime: nat, cs: Seq<ComponentLifecycleState>, now: u64) -> Seq<char> {
    stats_header(phase, uptime, cs.len()) + components_stats_text(cs, now)
}

/// Appends the first line of component `c` to `stats`.
#[verifier::rlimit(40)]
fn push_component_flags(stats: &mut String, c: &ComponentLifecycleState)
    ensures
        final(stats)@ == old(stats)@ + component_flags_text(*c),
{
    let ghost mut part: Seq<char> = Seq::empty();
    proof {
        assert(stats@ =~= old(stats)@ + part);
    }
    stats.append("├─ ");
    proof {
        assert(stats@ =~= old(stats)@ + (part + "├─ "@));
        part = part + "├─ "@;
    }
    stats.append(status_icon(c));
    proof {
        assert(stats@ =~= old(stats)@ + (part + spec_status_icon(*c)));
        part = part + spec_status_icon(*c);
    }
    stats.append(" ");
    proof {
        assert(stats@ =~= old(stats)@ + (part + " "@));
        part = part + " "@;
    }
    stats.append(c.name.as_str());
    proof {
        assert(stats@ =~= old(stats)@ + (part + c.name@));
        part = part + c.name@;
    }
    stats.append(": Phase=");
    proof {
        assert(stats@ =~= old(stats)@ + (part + ": Phase="@));
        part = part + ": Phase="@;
    }
    stats.append(c.phase.name());
    proof {
        assert(stats@ =~= old(stats)@ + (part + phase_name(c.phase)));
        part = part + phase_name(c.phase);
    }
    stats.append(", Init=");
    proof {
        assert(stats@ =~= old(stats)@ + (part + ", Init="@));
        part = part + ", Init="@;
    }
    stats.append(bool_text(c.initialized));
    proof {
        assert(stats@ =~= old(stats)@ + (part + bool_name(c.initialized)));
        part = part + bool_name(c.initialized);
    }
    stats.append(", Ready=");
    proof {
        assert(stats@ =~= old(stats)@ + (part + ", Ready="@));
        part = part + ", Ready="@;
    }
    stats.append(bool_text(c.ready));
    proof {
        assert(stats@ =~= old(stats)@ + (part + bool_name(c.ready)));
        part = part + bool_name(c.ready);
    }
    stats.append(", Healthy=");
    proof {
        assert(stats@ =~= old(stats)@ + (part + ", Healthy="@));
        part = part + ", Healthy="@;
    }
    stats.append(bool_text(c.healthy));
    proof {
        assert(stats@ =~= old(stats)@ + (part + bool_name(c.healthy)));
        part = part + bool_name(c.healthy);
    }
    stats.append("\n");
    proof {
        assert(stats@ =~= old(stats)@ + (part + "\n"@));
        part = part + "\n"@;
    }
    proof {
        assert(part =~= component_flags_text(*c));
    }
}

/// Appends the optional lines of component `c` at `now_ms` to `stats`.
fn push_component_details(stats: &mut String, c: &ComponentLifecycleState, now_ms: u64)
    ensures
        final(stats)@ == old(stats)@ + init_time_text(*c) + check_age_text(*c, now_ms) + error_line_text(*c),
{
    match c.initialization_time_ms {
        Some(t) => {
            stats.append("   ├─ Init time: ");
            push_decimal(stats, t);
            stats.append("ms\n");
        },
        None => {},
    }
    let ghost with_init = stats@;
    proof {
        assert(with_init =~= old(stats)@ + init_time_text(*c));
    }
    match c.last_health_check_ms {
        Some(t) => {
            stats.append("   ├─ Last health check: ");
            push_decimal(stats, elapsed_ms(now_ms, t));
            stats.append("ms ago\n");
        },
        None => {},
    }
    let ghost with_check = stats@;
    proof {
        assert(with_check =~= with_init + check_age_text(*c, now_ms));
    }
    match &c.error_message {
        Some(e) => {
            stats.append("   └─ Error: ");
            stats.append(e.as_str());
            stats.append("\n");
        },
        None => {},
    }
    proof {
        assert(stats@ =~= with_check + error_line_text(*c));
        assert(stats@ =~= old(stats)@ + init_time_text(*c) + check_age_text(*c, now_ms) + error_line_text(*c));
    }
}

/// Appends the lines of component `c` at `now_ms` to `stats`.
fn push_component_stats(stats: &mut String, c: &ComponentLifecycleState, now_ms: u64)
    ensures
        final(stats)@ == old(stats)@ + component_stats_text(*c, now_ms),
{
    push_component_flags(stats, c);
    push_component_details(stats, c, now_ms);
    proof {
        assert(stats@ =~= old(stats)@ + component_stats_text(*c, now_ms));
    }
}

/// `true` or `false`, as printed.
fn bool_text(b: bool) -> (s: &'static str)
    ensures
        s@ == (if b { "true"@ } else { "false"@ }),
{
    if b { "true" } else { "false" }
}

/// The status mark of a component: ready and healthy, initialized only, or neither.
pub open spec fn spec_status_icon(c: ComponentLifecycleState) -> Seq<char> {
    if c.ready && c.healthy { "✅"@ } else if c.initialized { "🟡"@ } else { "❌"@ }
}

/// The status mark of a component in the summary.
pub fn status_icon(c: &ComponentLifecycleState) -> (s: &'static str)
    ensures
        s@ == spec_status_icon(*c),
{
    if c.ready && c.healthy { "✅" } else if c.initialized { "🟡" } else { "❌" }
}

/// Names of the components whose readiness (or, with `by_health`, health) is false.
fn collect_names(cs: &Vec<ComponentLifecycleState>, by_health: bool) -> (r: Vec<String>)
    ensures
        by_health ==> r@.map_values(|s: String| s@) == cs@.filter(|c: ComponentLifecycleState| !c.healthy).map_values(|c: ComponentLifecycleState| c.name@),
        !by_health ==> r@.map_values(|s: String| s@) == cs@.filter(|c: ComponentLifecycleState| !c.ready).map_values(|c: ComponentLifecycleState| c.name@),
{
    let ghost pred = if by_health { |c: ComponentLifecycleState| !c.healthy } else { |c: ComponentLifecycleState| !c.ready };
    let mut out: Vec<String> = Vec::new();
    let mut i: usize = 0;
    while i < cs.len()
        invariant
            i <= cs@.len(),
            pred == (if by_health { |c: ComponentLifecycleState| !c.healthy } else { |c: ComponentLifecycleState| !c.ready }),
            out@.map_values(|s: String| s@) == cs@.take(i as int).filter(pred).map_values(|c: ComponentLifecycleState| c.name@),
        decreases cs@.len() - i,
    {
        let hit = if by_health { !cs[i].healthy } else { !cs[i].ready };
        let ghost old_out = out@;
        proof {
            assert(cs@.take(i + 1) =~= cs@.take(i as int).push(cs@[i as int]));
            cs@.take(i as int).lemma_filter_push(cs@[i as int], pred);
            assert(pred(cs@[i as int]) == hit);
        }
        if hit {
            out.push(cs[i].name.clone());
        }
        proof {
            let f = |c: ComponentLifecycleState| c.name@;
            let g = |s: String| s@;
            let ft = cs@.take(i as int).filter(pred);
            if hit {
                assert(out@.map_values(g) =~= old_out.map_values(g).push(cs@[i as int].name@));
                assert(ft.push(cs@[i as int]).map_values(f) =~= ft.map_values(f).push(cs@[i as int].name@));
            }
        }
        i = i + 1;
    }
    proof { assert(cs@.take(cs@.len() as int) =~= cs@); }
    out
}

/// Names of the components whose initialization failed, in the order of `results`
/// (each result is a component name with `true` for success).
pub fn failed_components(results: &Vec<(String, bool)>) -> (r: Vec<String>)
    ensures
        r@.map_values(|s: String| s@) == results@.filter(|x: (String, bool)| !x.1).map_values(|x: (String, bool)| x.0@),
{
    let mut out: Vec<String> = Vec::new();
    let mut i: usize = 0;
    while i < results.len()
        invariant
            i <= results@.len(),
            out@.map_values(|s: String| s@) == results@.take(i as int).filter(|x: (String, bool)| !x.1).map_values(|x: (String, bool)| x.0@),
        decreases results@.len() - i,
    {
        let ghost old_out = out@;
        proof {
            assert(results@.take(i + 1) =~= results@.take(i as int).push(results@[i as int]));
            results@.take(i as int).lemma_filter_push(results@[i as int], |x: (String, bool)| !x.1);
        }
        if !results[i].1 {
            out.push(results[i].0.clone());
        }
        proof {
            let f = |x: (String, bool)| x.0@;
            let g = |s: String| s@;
            let ft = results@.take(i as int).filter(|x: (String, bool)| !x.1);
            if !results@[i as int].1 {
                assert(out@.map_values(g) =~= old_out.map_values(g).push(results@[i as int].0@));
                assert(ft.push(results@[i as int]).map_values(f) =~= ft.map_values(f).push(results@[i as int].0@));
            }
        }
        i = i + 1;
    }
    proof { assert(results@.take(results@.len() as int) =~= results@); }
    out
}

/// The error of a start-up phase in which some components failed to initialize.
pub open spec fn spec_phase_failure(phase: LifecyclePhase, failed: Seq<Seq<char>>) -> Seq<char> {
    "Не удалось инициализировать компоненты в фазе "@ + phase_name(phase) + ": "@ + quoted_list(failed)
}

/// The outcome of a start-up phase from each component's initialization result (its name
/// with `true` for success): success when all initialized, otherwise the phase's error
/// naming the failed components in order.
pub fn phase_outcome(phase: LifecyclePhase, results: &Vec<(String, bool)>) -> (r: Result<(), String>)
    ensures
        ({
            let failed = results@.filter(|x: (String, bool)| !x.1).map_values(|x: (String, bool)| x.0@);
            &&& failed.len() == 0 ==> r is Ok
            &&& failed.len() > 0 ==> (r matches Err(e) && e@ == spec_phase_failure(phase, failed))
        }),
{
    let failed = failed_components(results);
    if failed.len() == 0 {
        return Ok(());
    }
    proof {
        assert(word_views(failed@) =~= failed@.map_values(|s: String| s@));
    }
    let mut e = String::from_str("Не удалось инициализировать компоненты в фазе ");
    e.append(phase.name());
    e.append(": ");
    e.append(quoted_names(&failed).as_str());
    Err(e)
}

/// The error of a start-up phase that ran out of time: the phase and its timeout as a
/// duration is printed.
pub fn phase_timeout_message(phase: LifecyclePhase, timeout_ms: u64) -> (m: String)
    ensures
        m@ == "Phase "@ + phase_name(phase) + " timeout after "@ + duration_text(timeout_ms as nat),
{
    let mut m = String::from_str("Phase ");
    m.append(phase.name());
    m.append(" timeout after ");
    push_duration(&mut m, timeout_ms);
    m
}

/// The error when a coordinator's dependencies are not ready.
pub fn dependencies_not_ready_message(name: &str) -> (m: String)
    ensures
        m@ == "Зависимости координатора '"@ + name@ + "' не готовы"@,
{
    let mut m = String::from_str("Зависимости координатора '");
    m.append(name);
    m.append("' не готовы");
    m
}

/// The order in which a graceful shutdown stops the known coordinators: the reverse of
/// start-up.
pub open spec fn spec_shutdown_order() -> Seq<Seq<char>> {
    seq!["backup"@, "promotion"@, "search"@, "embedding"@, "health"@, "resources"@]
}

/// The order in which a graceful shutdown stops the known coordinators: the reverse of
/// start-up.
pub fn shutdown_order() -> (r: Vec<&'static str>)
    ensures
        r@.map_values(|s: &str| s@) == spec_shutdown_order(),
{
    let r = vec!["backup", "promotion", "search", "embedding", "health", "resources"];
    assert(r@.map_values(|s: &str| s@) =~= spec_shutdown_order());
    r
}

/// The coordinators a graceful shutdown stops, in order: those of `names` that are known,
/// in the reverse of start-up, then every other one of `names`, in the order given.
pub open spec fn spec_shutdown_sequence(names: Seq<Seq<char>>) -> Seq<Seq<char>> {
    spec_shutdown_order().filter(|n: Seq<char>| names.contains(n))
        + names.filter(|n: Seq<char>| !spec_shutdown_order().contains(n))
}

/// Whether `name` is one of `names`.
fn contains_name(names: &Vec<String>, name: &str) -> (b: bool)
    ensures
        b == word_views(names@).contains(name@),
{
    let key = name.to_owned();
    let mut i: usize = 0;
    while i < names.len()
        invariant
            i <= names@.len(),
            key@ == name@,
            forall|j: int| 0 <= j < i ==> (#[trigger] names@[j])@ != name@,
        decreases names@.len() - i,
    {
        if names[i] == key {
            assert(word_views(names@)[i as int] == name@);
            return true;
        }
        i = i + 1;
    }
    proof {
        if word_views(names@).contains(name@) {
            let j = choose|j: int| 0 <= j < word_views(names@).len() && word_views(names@)[j] == name@;
            assert(names@[j]@ == name@);
        }
    }
    false
}

/// The coordinators that a graceful shutdown of the coordinators `names` stops, in order:
/// the known ones in the reverse of start-up, then the others as given. Every one of
/// `names` is stopped.
pub fn shutdown_sequence(names: &Vec<String>) -> (r: Vec<String>)
    ensures
        word_views(r@) == spec_shutdown_sequence(word_views(names@)),
        forall|k: int| 0 <= k < names@.len() ==> word_views(r@).contains(#[trigger] names@[k]@),
{
    let order = shutdown_order();
    let ghost ns = word_views(names@);
    let ghost known = spec_shutdown_order();
    let ghost p1 = |n: Seq<char>| ns.contains(n);
    let ghost p2 = |n: Seq<char>| !known.contains(n);
    let mut known_names: Vec<String> = Vec::new();
    let mut r: Vec<String> = Vec::new();
    let mut i: usize = 0;
    while i < order.len()
        invariant
            i <= order@.len(),
            order@.map_values(|s: &str| s@) == known,
            known == spec_shutdown_order(),
            ns == word_views(names@),
            p1 == (|n: Seq<char>| ns.contains(n)),
            word_views(known_names@) == known.take(i as int),
            word_views(r@) == known.take(i as int).filter(p1),
        decreases order@.len() - i,
    {
        let name = order[i];
        assert(name@ == known[i as int]);
        proof {
            assert(known.take(i + 1) =~= known.take(i as int).push(known[i as int]));
            known.take(i as int).lemma_filter_push(known[i as int], p1);
        }
        if contains_name(names, name) {
            r.push(name.to_owned());
            assert(word_views(r@) =~= known.take(i + 1).filter(p1));
        } else {
            assert(word_views(r@) =~= known.take(i + 1).filter(p1));
        }
        known_names.push(name.to_owned());
        assert(word_views(known_names@) =~= known.take(i + 1));
        i = i + 1;
    }
    assert(known.take(6) =~= known);
    let ghost first = word_views(r@);
    let mut j: usize = 0;
    while j < names.len()
        invariant
            j <= names@.len(),
            ns == word_views(names@),
            known == spec_shutdown_order(),
            p2 == (|n: Seq<char>| !known.contains(n)),
            word_views(known_names@) == known,
            first == known.filter(p1),
            word_views(r@) == first + ns.take(j as int).filter(p2),
        decreases names@.len() - j,
    {
        proof {
            assert(ns.take(j + 1) =~= ns.take(j as int).push(ns[j as int]));
            ns.take(j as int).lemma_filter_push(ns[j as int], p2);
            assert(ns[j as int] == names@[j as int]@);
        }
        if !contains_name(&known_names, names[j].as_str()) {
            let ghost before = r@;
            let c = names[j].as_str().to_owned();
            assert(c@ == ns[j as int]);
            assert(p2(ns[j as int]));
            assert(ns.take(j + 1).filter(p2) == ns.take(j as int).filter(p2).push(ns[j as int]));
            r.push(c);
            assert(word_views(r@) =~= word_views(before).push(c@));
            assert(word_views(r@) =~= first + ns.take(j + 1).filter(p2));
        } else {
            assert(word_views(r@) =~= first + ns.take(j + 1).filter(p2));
        }
        j = j + 1;
    }
    proof {
        assert(ns.take(ns.len() as int) =~= ns);
        assert forall|k: int| 0 <= k < names@.len() implies word_views(r@).contains(#[trigger] names@[k]@) by {
            let n = names@[k]@;
            assert(ns[k] == n);
            let a = known.filter(p1);
            let b = ns.filter(p2);
            if known.contains(n) {
                let t = choose|t: int| 0 <= t < known.len() && known[t] == n;
                assert(p1(known[t]));
                known.lemma_filter_contains(p1, t);
                let u = choose|u: int| 0 <= u < a.len() && a[u] == n;
                assert((a + b)[u] == n);
            } else {
                assert(p2(ns[k]));
                ns.lemma_filter_contains(p2, k);
                let u = choose|u: int| 0 <= u < b.len() && b[u] == n;
                assert((a + b)[a.len() + u] == n);
            }
        }
    }
    r
}


/// The start-up phases of a production start: the critical infrastructure (resources and
/// health), the core services (embedding and search) and the background services (promotion
/// and backup), each with the timeout `config` gives it.
pub open spec fn spec_production_phases(config: LifecycleConfig) -> Seq<(LifecyclePhase, Seq<Seq<char>>, u64)> {
    seq![
        (LifecyclePhase::CriticalInfrastructure, seq!["resources"@, "health"@], config.critical_infrastructure_timeout_ms),
        (LifecyclePhase::CoreServices, seq!["embedding"@, "search"@], config.core_services_timeout_ms),
        (LifecyclePhase::BackgroundServices, seq!["promotion"@, "backup"@], config.background_services_timeout_ms),
    ]
}

/// The start-up phases of a production start, in order, with their components and timeouts.
pub fn production_phases(config: &LifecycleConfig) -> (r: Vec<(LifecyclePhase, Vec<&'static str>, u64)>)
    ensures
        r@.len() == 3,
        forall|k: int| 0 <= k < 3 ==> (#[trigger] r@[k]).0 == spec_production_phases(*config)[k].0
            && r@[k].1@.map_values(|s: &str| s@) == spec_production_phases(*config)[k].1
            && r@[k].2 == spec_production_phases(*config)[k].2,
{
    let p1 = vec!["resources", "health"];
    let p2 = vec!["embedding", "search"];
    let p3 = vec!["promotion", "backup"];
    proof {
        assert(p1@.map_values(|s: &str| s@) =~= seq!["resources"@, "health"@]);
        assert(p2@.map_values(|s: &str| s@) =~= seq!["embedding"@, "search"@]);
        assert(p3@.map_values(|s: &str| s@) =~= seq!["promotion"@, "backup"@]);
    }
    vec![
        (LifecyclePhase::CriticalInfrastructure, p1, config.critical_infrastructure_timeout_ms),
        (LifecyclePhase::CoreServices, p2, config.core_services_timeout_ms),
        (LifecyclePhase::BackgroundServices, p3, config.background_services_timeout_ms),
    ]
}

/// The coordinators a phase initializes: those of `wanted` that are among `available`, in
/// the order of `wanted`.
pub fn phase_members(available: &Vec<String>, wanted: &Vec<&str>) -> (r: Vec<String>)
    ensures
        word_views(r@) == wanted@.map_values(|s: &str| s@).filter(|n: Seq<char>| word_views(available@).contains(n)),
{
    let ghost ws = wanted@.map_values(|s: &str| s@);
    let ghost p = |n: Seq<char>| word_views(available@).contains(n);
    let mut r: Vec<String> = Vec::new();
    let mut i: usize = 0;
    while i < wanted.len()
        invariant
            i <= wanted@.len(),
            ws == wanted@.map_values(|s: &str| s@),
            p == (|n: Seq<char>| word_views(available@).contains(n)),
            word_views(r@) == ws.take(i as int).filter(p),
        decreases wanted@.len() - i,
    {
        let name = wanted[i];
        proof {
            assert(ws[i as int] == name@);
            assert(ws.take(i + 1) =~= ws.take(i as int).push(ws[i as int]));
            ws.take(i as int).lemma_filter_push(ws[i as int], p);
        }
        if contains_name(available, name) {
            let ghost before = r@;
            let c = name.to_owned();
            r.push(c);
            assert(word_views(r@) =~= word_views(before).push(c@));
        }
        assert(word_views(r@) =~= ws.take(i + 1).filter(p));
        i = i + 1;
    }
    assert(ws.take(ws.len() as int) =~= ws);
    r
}

/// The two stages of a start from a registry, given its initialization order with each
/// coordinator's criticality: the critical coordinators, initialized together first, then
/// the others one by one in order.
pub fn registry_stages(order: &Vec<(String, bool)>) -> (r: (Vec<String>, Vec<String>))
    ensures
        word_views(r.0@) == order@.filter(|e: (String, bool)| e.1).map_values(|e: (String, bool)| e.0@),
        word_views(r.1@) == order@.filter(|e: (String, bool)| !e.1).map_values(|e: (String, bool)| e.0@),
{
    let ghost pc = |e: (String, bool)| e.1;
    let ghost po = |e: (String, bool)| !e.1;
    let ghost f = |e: (String, bool)| e.0@;
    let mut critical: Vec<String> = Vec::new();
    let mut rest: Vec<String> = Vec::new();
    let mut i: usize = 0;
    while i < order.len()
        invariant
            i <= order@.len(),
            pc == (|e: (String, bool)| e.1),
            po == (|e: (String, bool)| !e.1),
            f == (|e: (String, bool)| e.0@),
            word_views(critical@) == order@.take(i as int).filter(pc).map_values(f),
            word_views(rest@) == order@.take(i as int).filter(po).map_values(f),
        decreases order@.len() - i,
    {
        let ghost t = order@.take(i as int);
        proof {
            assert(order@.take(i + 1) =~= t.push(order@[i as int]));
            t.lemma_filter_push(order@[i as int], pc);
            t.lemma_filter_push(order@[i as int], po);
        }
        let c = order[i].0.as_str().to_owned();
        if order[i].1 {
            let ghost before = critical@;
            critical.push(c);
            assert(word_views(critical@) =~= word_views(before).push(c@));
            assert(word_views(critical@) =~= order@.take(i + 1).filter(pc).map_values(f));
            assert(word_views(rest@) =~= order@.take(i + 1).filter(po).map_values(f));
        } else {
            let ghost before = rest@;
            rest.push(c);
            assert(word_views(rest@) =~= word_views(before).push(c@));
            assert(word_views(critical@) =~= order@.take(i + 1).filter(pc).map_values(f));
            assert(word_views(rest@) =~= order@.take(i + 1).filter(po).map_values(f));
        }
        i = i + 1;
    }
    assert(order@.take(order@.len() as int) =~= order@);
    (critical, rest)
}

} // verus!
