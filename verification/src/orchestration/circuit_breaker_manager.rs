//! Circuit breakers for the coordinators of the memory system.
//!
//! A breaker counts consecutive failures of one component. When the count reaches the
//! breaker's threshold the circuit opens and requests are refused; once the recovery timeout
//! has passed since the last failure, one probe is let through (half-open); a success closes
//! the circuit again. Times are milliseconds read from `crate::clock`.

use vstd::prelude::*;

use crate::clock::{elapsed_ms, now_millis, spec_elapsed};

verus! {

/// Configuration of one circuit breaker.
#[derive(Clone, Copy, Debug)]
pub struct CircuitBreakerConfig {
    /// Number of consecutive failures that opens the circuit.
    pub failure_threshold: u64,
    /// Time after the last failure before a probe is let through, in milliseconds.
    pub recovery_timeout_ms: u64,
}

impl CircuitBreakerConfig {
    /// Configuration for fast operations (search): 3 failures, 10 s recovery.
    pub fn fast() -> (c: Self)
        ensures
            c.failure_threshold == 3,
            c.recovery_timeout_ms == 10_000,
    {
        CircuitBreakerConfig { failure_threshold: 3, recovery_timeout_ms: 10_000 }
    }

    /// Configuration for critical operations (backup, promotion): 2 failures, 5 min recovery.
    pub fn critical() -> (c: Self)
        ensures
            c.failure_threshold == 2,
            c.recovery_timeout_ms == 300_000,
    {
        CircuitBreakerConfig { failure_threshold: 2, recovery_timeout_ms: 300_000 }
    }

    /// Configuration for ordinary operations: 5 failures, 30 s recovery.
    pub fn standard() -> (c: Self)
        ensures
            c.failure_threshold == 5,
            c.recovery_timeout_ms == 30_000,
    {
        CircuitBreakerConfig { failure_threshold: 5, recovery_timeout_ms: 30_000 }
    }
}

impl Default for CircuitBreakerConfig {
    /// The default configuration equals `standard()`.
    fn default() -> (c: Self)
        ensures
            c.failure_threshold == 5,
            c.recovery_timeout_ms == 30_000,
    {
        CircuitBreakerConfig::standard()
    }
}

/// State of a circuit.
#[derive(Debug, Clone, Copy, PartialEq, Eq, Structural)]
pub enum CircuitBreakerStatus {
    /// Normal operation: every request passes.
    Closed,
    /// Requests are refused.
    Open,
    /// Recovery probe: requests pass until the next success or failure decides.
    HalfOpen,
}

/// Snapshot of one breaker, as reported by `get_statistics`.
#[derive(Debug, Clone, Copy)]
pub struct CircuitBreakerStatistics {
    pub status: CircuitBreakerStatus,
    pub failure_count: u64,
    pub last_failure_seconds_ago: Option<u64>,
    pub recovery_timeout_seconds: u64,
}

/// State of the breaker of one component.
#[derive(Debug, Clone, Copy)]
pub struct CircuitBreakerState {
    /// Consecutive failures since the last success.
    pub failure_count: u64,
    /// When the last failure was recorded (milliseconds), if any since the last success.
    pub last_failure_ms: Option<u64>,
    pub state: CircuitBreakerStatus,
    pub recovery_timeout_ms: u64,
    pub failure_threshold: u64,
}

/// The failure count after one more failure (the counter wraps as an atomic `fetch_add` does).
pub open spec fn next_count(c: u64) -> u64 {
    if c == u64::MAX { 0 } else { (c + 1) as u64 }
}

impl CircuitBreakerState {
    /// The state after `record_success`: closed, no failures.
    pub open spec fn spec_record_success(self) -> Self {
        CircuitBreakerState { failure_count: 0, last_failure_ms: None, state: CircuitBreakerStatus::Closed, ..self }
    }

    /// The state after `record_failure` at time `now`.
    pub open spec fn spec_record_failure(self, now: u64) -> Self {
        let n = next_count(self.failure_count);
        CircuitBreakerState {
            failure_count: n,
            last_failure_ms: Some(now),
            state: if n >= self.failure_threshold { CircuitBreakerStatus::Open } else { self.state },
            ..self
        }
    }

    /// Whether an open circuit has waited out its recovery timeout at time `now`.
    pub open spec fn recovery_due(self, now: u64) -> bool {
        match self.last_failure_ms {
            Some(t) => spec_elapsed(now, t) >= self.recovery_timeout_ms,
            None => false,
        }
    }

    /// The answer of `can_execute` at time `now`.
    pub open spec fn spec_allows(self, now: u64) -> bool {
        match self.state {
            CircuitBreakerStatus::Closed => true,
            CircuitBreakerStatus::HalfOpen => true,
            CircuitBreakerStatus::Open => self.recovery_due(now),
        }
    }

    /// The state after `can_execute` at time `now`: an open circuit whose recovery is due
    /// becomes half-open, nothing else changes.
    pub open spec fn spec_after_check(self, now: u64) -> Self {
        if self.state == CircuitBreakerStatus::Open && self.recovery_due(now) {
            CircuitBreakerState { state: CircuitBreakerStatus::HalfOpen, ..self }
        } else {
            self
        }
    }

    /// The state after `n` failures recorded at time `now`.
    pub open spec fn failed_times(self, n: nat, now: u64) -> Self
        decreases n,
    {
        if n == 0 { self } else { self.failed_times((n - 1) as nat, now).spec_record_failure(now) }
    }

    /// A new, closed breaker with the given configuration.
    pub fn new(config: &CircuitBreakerConfig) -> (s: Self)
        ensures
            s.failure_count == 0,
            s.last_failure_ms is None,
            s.state == CircuitBreakerStatus::Closed,
            s.recovery_timeout_ms == config.recovery_timeout_ms,
            s.failure_threshold == config.failure_threshold,
    {
        CircuitBreakerState {
            failure_count: 0,
            last_failure_ms: None,
            state: CircuitBreakerStatus::Closed,
            recovery_timeout_ms: config.recovery_timeout_ms,
            failure_threshold: config.failure_threshold,
        }
    }

    /// Records a success: the circuit closes and the failure count is cleared.
    pub fn record_success(&mut self)
        ensures
            *final(self) == old(self).spec_record_success(),
    {
        self.failure_count = 0;
        self.state = CircuitBreakerStatus::Closed;
        self.last_failure_ms = None;
    }

    /// Records a failure at time `now`: the count grows by one and the circuit opens once
    /// the count reaches the threshold.
    pub fn record_failure_at(&mut self, now: u64)
        ensures
            *final(self) == old(self).spec_record_failure(now),
    {
        let failures = self.failure_count.wrapping_add(1);
        self.failure_count = failures;
        self.last_failure_ms = Some(now);
        if failures >= self.failure_threshold {
            self.state = CircuitBreakerStatus::Open;
        }
    }

    /// Records a failure now (reads the clock).
    pub fn record_failure(&mut self)
        ensures
            exists|now: u64| *final(self) == old(self).spec_record_failure(now),
    {
        let now = now_millis();
        self.record_failure_at(now);
    }

    /// Whether a request may pass at time `now`. An open circuit whose recovery timeout has
    /// passed since the last failure turns half-open and lets the request through.
    pub fn can_execute_at(&mut self, now: u64) -> (r: bool)
        ensures
            r == old(self).spec_allows(now),
            *final(self) == old(self).spec_after_check(now),
    {
        match self.state {
            CircuitBreakerStatus::Closed => true,
            CircuitBreakerStatus::Open => {
                match self.last_failure_ms {
                    Some(t) => {
                        if elapsed_ms(now, t) >= self.recovery_timeout_ms {
                            self.state = CircuitBreakerStatus::HalfOpen;
                            true
                        } else {
                            false
                        }
                    },
                    None => false,
                }
            },
            CircuitBreakerStatus::HalfOpen => true,
        }
    }

    /// Whether a request may pass now (reads the clock).
    pub fn can_execute(&mut self) -> (r: bool)
        ensures
            exists|now: u64|
                r == old(self).spec_allows(now) && *final(self) == old(self).spec_after_check(now),
    {
        let now = now_millis();
        self.can_execute_at(now)
    }

    /// Statistics of this breaker at time `now`; ages and timeouts in whole seconds.
    pub fn get_statistics_at(&self, now: u64) -> (s: CircuitBreakerStatistics)
        ensures
            s.status == self.state,
            s.failure_count == self.failure_count,
            s.last_failure_seconds_ago == (match self.last_failure_ms {
                Some(t) => Some((spec_elapsed(now, t) / 1000) as u64),
                None => None,
            }),
            s.recovery_timeout_seconds == self.recovery_timeout_ms / 1000,
    {
        let ago = match self.last_failure_ms {
            Some(t) => Some(elapsed_ms(now, t) / 1000),
            None => None,
        };
        CircuitBreakerStatistics {
            status: self.state,
            failure_count: self.failure_count,
            last_failure_seconds_ago: ago,
            recovery_timeout_seconds: self.recovery_timeout_ms / 1000,
        }
    }

    /// Statistics of this breaker now (reads the clock).
    pub fn get_statistics(&self) -> (s: CircuitBreakerStatistics)
        ensures
            s.status == self.state,
            s.failure_count == self.failure_count,
            s.last_failure_seconds_ago is Some <==> self.last_failure_ms is Some,
            s.recovery_timeout_seconds == self.recovery_timeout_ms / 1000,
    {
        let now = now_millis();
        self.get_statistics_at(now)
    }
}

/// Recording `threshold` failures in a row (counting from a closed breaker with no failures)
/// opens the circuit, whatever the times of the failures.
pub proof fn lemma_threshold_failures_open(s: CircuitBreakerState, now: u64)
    requires
        s.failure_count == 0,
        s.failure_threshold >= 1,
    ensures
        s.failed_times(s.failure_threshold as nat, now).state == CircuitBreakerStatus::Open,
        s.failed_times(s.failure_threshold as nat, now).failure_count == s.failure_threshold,
{
    lemma_failed_times_count(s, s.failure_threshold as nat, now);
}

/// After `n` failures from a breaker with no failures (and `n` below the counter's range),
/// the count is `n`; the circuit is open exactly when `n` reached the threshold or it was
/// already open.
pub proof fn lemma_failed_times_count(s: CircuitBreakerState, n: nat, now: u64)
    requires
        s.failure_count == 0,
        n <= u64::MAX,
    ensures
        s.failed_times(n, now).failure_count == n,
        n >= 1 ==> s.failed_times(n, now).last_failure_ms == Some(now),
        s.failed_times(n, now).failure_threshold == s.failure_threshold,
        s.failed_times(n, now).recovery_timeout_ms == s.recovery_timeout_ms,
        (n >= s.failure_threshold && n >= 1) ==> s.failed_times(n, now).state == CircuitBreakerStatus::Open,
        (n < s.failure_threshold) ==> s.failed_times(n, now).state == s.state,
    decreases n,
{
    if n > 0 {
        lemma_failed_times_count(s, (n - 1) as nat, now);
    }
}

/// An open circuit refuses every request until its recovery timeout has passed since the
/// last failure, and the refusal leaves it unchanged.
pub proof fn lemma_open_refuses_until_timeout(s: CircuitBreakerState, now: u64)
    requires
        s.state == CircuitBreakerStatus::Open,
        s.last_failure_ms is Some,
        spec_elapsed(now, s.last_failure_ms->0) < s.recovery_timeout_ms,
    ensures
        !s.spec_allows(now),
        s.spec_after_check(now) == s,
{
}

/// Once the recovery timeout has passed, an open circuit lets one probe through and becomes
/// half-open; a success then closes it with no failures counted.
pub proof fn lemma_recovery_then_success_closes(s: CircuitBreakerState, now: u64)
    requires
        s.state == CircuitBreakerStatus::Open,
        s.last_failure_ms is Some,
        spec_elapsed(now, s.last_failure_ms->0) >= s.recovery_timeout_ms,
    ensures
        s.spec_allows(now),
        s.spec_after_check(now).state == CircuitBreakerStatus::HalfOpen,
        s.spec_after_check(now).spec_record_success().state == CircuitBreakerStatus::Closed,
        s.spec_after_check(now).spec_record_success().failure_count == 0,
        s.spec_after_check(now).spec_record_success().spec_allows(now),
{
}

/// A closed or half-open circuit always lets requests through and the check changes nothing.
pub proof fn lemma_not_open_allows(s: CircuitBreakerState, now: u64)
    requires
        s.state != CircuitBreakerStatus::Open,
    ensures
        s.spec_allows(now),
        s.spec_after_check(now) == s,
{
}

/// A breaker of a named component inside the manager.
#[derive(Debug)]
pub struct NamedBreaker {
    pub name: String,
    pub breaker: CircuitBreakerState,
}

/// Circuit breaker manager: one breaker per component name.
pub struct CircuitBreakerManager {
    entries: Vec<NamedBreaker>,
    default_config: CircuitBreakerConfig,
}

/// The position of the breaker named `name` in `entries`, if any.
pub open spec fn index_of(entries: Seq<NamedBreaker>, name: Seq<char>) -> Option<int> {
    if exists|i: int| 0 <= i < entries.len() && (#[trigger] entries[i]).name@ == name {
        Some(choose|i: int| 0 <= i < entries.len() && (#[trigger] entries[i]).name@ == name)
    } else {
        None
    }
}

/// Names in `entries` are pairwise distinct.
pub open spec fn distinct_names(entries: Seq<NamedBreaker>) -> bool {
    forall|i: int, j: int|
        0 <= i < entries.len() && 0 <= j < entries.len() && i != j ==> (#[trigger] entries[i]).name@ != (#[trigger] entries[j]).name@
}

/// The manager's breakers as a map from component name to breaker state.
pub open spec fn breaker_map(entries: Seq<NamedBreaker>) -> Map<Seq<char>, CircuitBreakerState> {
    Map::new(
        |n: Seq<char>| index_of(entries, n) is Some,
        |n: Seq<char>| entries[index_of(entries, n)->0].breaker,
    )
}

impl CircuitBreakerManager {
    /// The breakers, keyed by component name.
    pub closed spec fn view_map(&self) -> Map<Seq<char>, CircuitBreakerState> {
        breaker_map(self.entries@)
    }

    /// The component names, in the order their breakers were created.
    pub closed spec fn names(&self) -> Seq<Seq<char>> {
        self.entries@.map_values(|e: NamedBreaker| e.name@)
    }

    /// The configuration used for components added without one.
    pub closed spec fn spec_default_config(&self) -> CircuitBreakerConfig {
        self.default_config
    }

    /// Names are distinct, so every name has exactly one breaker.
    pub closed spec fn wf(&self) -> bool {
        distinct_names(self.entries@)
    }

    proof fn lemma_index_of(entries: Seq<NamedBreaker>, i: int)
        requires
            distinct_names(entries),
            0 <= i < entries.len(),
        ensures
            index_of(entries, entries[i].name@) == Some(i),
    {
    }

    /// The names list every breaker once: a name is listed exactly when it has a breaker, and
    /// no name is listed twice.
    pub proof fn lemma_names_are_the_breakers(&self)
        requires
            self.wf(),
        ensures
            self.names().no_duplicates(),
            forall|n: Seq<char>| #[trigger] self.view_map().contains_key(n) <==> self.names().contains(n),
            self.names().len() == self.view_map().dom().len(),
    {
        let e = self.entries@;
        let ns = self.names();
        assert forall|i: int, j: int| 0 <= i < ns.len() && 0 <= j < ns.len() && i != j implies ns[i] != ns[j] by {
            assert(ns[i] == e[i].name@ && ns[j] == e[j].name@);
        }
        assert forall|n: Seq<char>| #[trigger] self.view_map().contains_key(n) <==> ns.contains(n) by {
            if self.view_map().contains_key(n) {
                let i = index_of(e, n)->0;
                assert(ns[i] == n);
            }
            if ns.contains(n) {
                let i = choose|i: int| 0 <= i < ns.len() && ns[i] == n;
                assert(e[i].name@ == n);
            }
        }
        assert(self.view_map().dom() =~= ns.to_set());
        ns.unique_seq_to_set();
    }

    /// A manager with no breakers and the default configuration for new components.
    pub fn new() -> (m: Self)
        ensures
            m.wf(),
            m.view_map() == Map::<Seq<char>, CircuitBreakerState>::empty(),
            m.spec_default_config().failure_threshold == 5,
            m.spec_default_config().recovery_timeout_ms == 30_000,
    {
        let m = CircuitBreakerManager::with_config(CircuitBreakerConfig::default());
        m
    }

    /// A manager with no breakers and the given configuration for new components.
    pub fn with_config(config: CircuitBreakerConfig) -> (m: Self)
        ensures
            m.wf(),
            m.view_map() == Map::<Seq<char>, CircuitBreakerState>::empty(),
            m.spec_default_config() == config,
    {
        let m = CircuitBreakerManager { entries: Vec::new(), default_config: config };
        assert(m.view_map() =~= Map::<Seq<char>, CircuitBreakerState>::empty());
        m
    }

    /// Position of the breaker named `name`.
    fn find(&self, name: &String) -> (r: Option<usize>)
        requires
            self.wf(),
        ensures
            match r {
                Some(i) => i < self.entries@.len() && self.entries@[i as int].name@ == name@
                    && index_of(self.entries@, name@) == Some(i as int),
                None => index_of(self.entries@, name@) is None,
            },
    {
        let mut i: usize = 0;
        while i < self.entries.len()
            invariant
                i <= self.entries@.len(),
                distinct_names(self.entries@),
                forall|k: int| 0 <= k < i ==> (#[trigger] self.entries@[k]).name@ != name@,
            decreases self.entries@.len() - i,
        {
            if self.entries[i].name == *name {
                proof { Self::lemma_index_of(self.entries@, i as int); }
                return Some(i);
            }
            i = i + 1;
        }
        None
    }

    /// Installs `breaker` under `name`, replacing any breaker of that name.
    fn put(&mut self, name: String, breaker: CircuitBreakerState)
        requires
            old(self).wf(),
        ensures
            final(self).wf(),
            final(self).view_map() == old(self).view_map().insert(name@, breaker),
            final(self).spec_default_config() == old(self).spec_default_config(),
    {
        let ghost nm = name@;
        match self.find(&name) {
            Some(i) => {
                let ghost old_entries = self.entries@;
                self.entries.set(i, NamedBreaker { name, breaker });
                proof {
                    let e = self.entries@;
                    assert(distinct_names(e)) by {
                        assert forall|a: int, b: int| 0 <= a < e.len() && 0 <= b < e.len() && a != b
                            implies (#[trigger] e[a]).name@ != (#[trigger] e[b]).name@ by {
                            if a != i && b != i {
                                assert(old_entries[a].name@ != old_entries[b].name@);
                            } else if a == i {
                                assert(old_entries[a].name@ != old_entries[b].name@);
                            } else {
                                assert(old_entries[a].name@ != old_entries[b].name@);
                            }
                        }
                    }
                    assert forall|n: Seq<char>| #[trigger] index_of(e, n) == index_of(old_entries, n) by {
                        if exists|k: int| 0 <= k < e.len() && (#[trigger] e[k]).name@ == n {
                            let k = choose|k: int| 0 <= k < e.len() && (#[trigger] e[k]).name@ == n;
                            Self::lemma_index_of(e, k);
                            Self::lemma_index_of(old_entries, k);
                        } else {
                            assert forall|k: int| 0 <= k < old_entries.len() implies (#[trigger] old_entries[k]).name@ != n by {
                                assert(e[k].name@ != n);
                            }
                        }
                    }
                    assert(self.view_map() =~= old(self).view_map().insert(nm, breaker));
                }
            },
            None => {
                let ghost old_entries = self.entries@;
                self.entries.push(NamedBreaker { name, breaker });
                proof {
                    let e = self.entries@;
                    let last = old_entries.len() as int;
                    assert forall|k: int| 0 <= k < old_entries.len() implies (#[trigger] old_entries[k]).name@ != nm by {
                        if old_entries[k].name@ == nm {
                            assert(index_of(old_entries, nm) is Some);
                        }
                    }
                    assert(distinct_names(e)) by {
                        assert forall|a: int, b: int| 0 <= a < e.len() && 0 <= b < e.len() && a != b
                            implies (#[trigger] e[a]).name@ != (#[trigger] e[b]).name@ by {
                            if a < last && b < last {
                                assert(old_entries[a].name@ != old_entries[b].name@);
                            } else if a == last {
                                assert(old_entries[b].name@ != nm);
                            } else {
                                assert(old_entries[a].name@ != nm);
                            }
                        }
                    }
                    Self::lemma_index_of(e, last);
                    assert forall|n: Seq<char>| n != nm implies #[trigger] index_of(e, n) == index_of(old_entries, n) by {
                        if exists|k: int| 0 <= k < e.len() && (#[trigger] e[k]).name@ == n {
                            let k = choose|k: int| 0 <= k < e.len() && (#[trigger] e[k]).name@ == n;
                            assert(k != last);
                            Self::lemma_index_of(e, k);
                            Self::lemma_index_of(old_entries, k);
                        } else {
                            assert forall|k: int| 0 <= k < old_entries.len() implies (#[trigger] old_entries[k]).name@ != n by {
                                assert(e[k].name@ != n);
                            }
                        }
                    }
                    assert(self.view_map() =~= old(self).view_map().insert(nm, breaker));
                }
            },
        }
    }

    /// Installs breakers for the standard coordinators: `standard()` for embedding, health and
    /// resources, `fast()` for search and `critical()` for promotion and backup. A breaker that
    /// already exists under one of these names is replaced.
    pub fn initialize_standard_coordinators(&mut self) -> (r: Result<(), anyhow::Error>)
        requires
            old(self).wf(),
        ensures
            r is Ok,
            final(self).wf(),
            final(self).view_map() == old(self).view_map()
                .insert("embedding"@, CircuitBreakerState::spec_fresh(5, 30_000))
                .insert("search"@, CircuitBreakerState::spec_fresh(3, 10_000))
                .insert("health"@, CircuitBreakerState::spec_fresh(5, 30_000))
                .insert("promotion"@, CircuitBreakerState::spec_fresh(2, 300_000))
                .insert("resources"@, CircuitBreakerState::spec_fresh(5, 30_000))
                .insert("backup"@, CircuitBreakerState::spec_fresh(2, 300_000)),
            final(self).spec_default_config() == old(self).spec_default_config(),
    {
        self.put("embedding".to_owned(), CircuitBreakerState::new(&CircuitBreakerConfig::standard()));
        self.put("search".to_owned(), CircuitBreakerState::new(&CircuitBreakerConfig::fast()));
        self.put("health".to_owned(), CircuitBreakerState::new(&CircuitBreakerConfig::standard()));
        self.put("promotion".to_owned(), CircuitBreakerState::new(&CircuitBreakerConfig::critical()));
        self.put("resources".to_owned(), CircuitBreakerState::new(&CircuitBreakerConfig::standard()));
        self.put("backup".to_owned(), CircuitBreakerState::new(&CircuitBreakerConfig::critical()));
        Ok(())
    }

    /// Adds a breaker for `component` with `config` (or the manager's default configuration).
    /// An existing breaker of that name is kept unchanged.
    pub fn add_component(&mut self, component: &str, config: Option<CircuitBreakerConfig>) -> (r: Result<(), anyhow::Error>)
        requires
            old(self).wf(),
        ensures
            r is Ok,
            final(self).wf(),
            final(self).spec_default_config() == old(self).spec_default_config(),
            old(self).view_map().contains_key(component@) ==> final(self).view_map() == old(self).view_map(),
            !old(self).view_map().contains_key(component@) ==> final(self).view_map() == old(self).view_map().insert(
                component@,
                CircuitBreakerState::spec_fresh(
                    match config { Some(c) => c.failure_threshold, None => old(self).spec_default_config().failure_threshold },
                    match config { Some(c) => c.recovery_timeout_ms, None => old(self).spec_default_config().recovery_timeout_ms },
                ),
            ),
    {
        let name = component.to_owned();
        if self.find(&name).is_some() {
            return Ok(());
        }
        let cfg = match config {
            Some(c) => c,
            None => self.default_config,
        };
        self.put(name, CircuitBreakerState::new(&cfg));
        Ok(())
    }

    /// Creates a breaker with the default configuration for `component` if it has none.
    fn ensure_component_exists(&mut self, component: &str)
        requires
            old(self).wf(),
        ensures
            final(self).wf(),
            final(self).spec_default_config() == old(self).spec_default_config(),
            final(self).view_map() == ensured(old(self).view_map(), component@, old(self).spec_default_config()),
    {
        let _ = self.add_component(component, None);
    }

    /// Whether a request for `component` may pass at time `now`. A component without a breaker
    /// first gets one with the default configuration; the breaker then decides as
    /// `CircuitBreakerState::can_execute_at` does.
    pub fn can_execute_at(&mut self, component: &str, now: u64) -> (r: bool)
        requires
            old(self).wf(),
        ensures
            final(self).wf(),
            final(self).spec_default_config() == old(self).spec_default_config(),
            ({
                let m = ensured(old(self).view_map(), component@, old(self).spec_default_config());
                &&& r == m[component@].spec_allows(now)
                &&& final(self).view_map() == m.insert(component@, m[component@].spec_after_check(now))
            }),
    {
        self.ensure_component_exists(component);
        let name = component.to_owned();
        match self.find(&name) {
            Some(i) => {
                let mut b = self.entries[i].breaker;
                let r = b.can_execute_at(now);
                self.replace_breaker(i, b);
                r
            },
            None => true,
        }
    }

    /// Records a success for `component` (creating its breaker first if needed): its circuit
    /// closes and its failure count is cleared.
    pub fn record_success_for(&mut self, component: &str)
        requires
            old(self).wf(),
        ensures
            final(self).wf(),
            final(self).spec_default_config() == old(self).spec_default_config(),
            ({
                let m = ensured(old(self).view_map(), component@, old(self).spec_default_config());
                final(self).view_map() == m.insert(component@, m[component@].spec_record_success())
            }),
    {
        self.ensure_component_exists(component);
        let name = component.to_owned();
        match self.find(&name) {
            Some(i) => {
                let mut b = self.entries[i].breaker;
                b.record_success();
                self.replace_breaker(i, b);
            },
            None => {},
        }
    }

    /// Records a failure for `component` at time `now` (creating its breaker first if needed).
    pub fn record_failure_at(&mut self, component: &str, now: u64)
        requires
            old(self).wf(),
        ensures
            final(self).wf(),
            final(self).spec_default_config() == old(self).spec_default_config(),
            ({
                let m = ensured(old(self).view_map(), component@, old(self).spec_default_config());
                final(self).view_map() == m.insert(component@, m[component@].spec_record_failure(now))
            }),
    {
        self.ensure_component_exists(component);
        let name = component.to_owned();
        match self.find(&name) {
            Some(i) => {
                let mut b = self.entries[i].breaker;
                b.record_failure_at(now);
                self.replace_breaker(i, b);
            },
            None => {},
        }
    }

    /// Replaces the breaker at position `i`, keeping its name.
    fn replace_breaker(&mut self, i: usize, breaker: CircuitBreakerState)
        requires
            old(self).wf(),
            i < old(self).entries@.len(),
        ensures
            final(self).wf(),
            final(self).spec_default_config() == old(self).spec_default_config(),
            final(self).view_map() == old(self).view_map().insert(old(self).entries@[i as int].name@, breaker),
    {
        let name = self.entries[i].name.clone();
        self.put(name, breaker);
    }

    /// The status of the breaker of `component`, or `None` when it has none.
    pub fn get_status(&self, component: &str) -> (r: Option<CircuitBreakerStatus>)
        requires
            self.wf(),
        ensures
            r == (if self.view_map().contains_key(component@) {
                Some(self.view_map()[component@].state)
            } else {
                None
            }),
    {
        let name = component.to_owned();
        match self.find(&name) {
            Some(i) => Some(self.entries[i].breaker.state),
            None => None,
        }
    }

    /// Closes every breaker and clears its failures.
    pub fn reset_all(&mut self) -> (r: Result<(), anyhow::Error>)
        requires
            old(self).wf(),
        ensures
            r is Ok,
            final(self).wf(),
            final(self).spec_default_config() == old(self).spec_default_config(),
            final(self).view_map().dom() == old(self).view_map().dom(),
            forall|n: Seq<char>| #[trigger] final(self).view_map().contains_key(n)
                ==> final(self).view_map()[n] == old(self).view_map()[n].spec_record_success(),
    {
        let ghost orig = self.entries@;
        let mut i: usize = 0;
        while i < self.entries.len()
            invariant
                i <= self.entries@.len(),
                self.entries@.len() == orig.len(),
                self.default_config == old(self).default_config,
                forall|k: int| 0 <= k < orig.len() ==> (#[trigger] self.entries@[k]).name@ == orig[k].name@,
                forall|k: int| 0 <= k < i ==> (#[trigger] self.entries@[k]).breaker == orig[k].breaker.spec_record_success(),
                forall|k: int| i <= k < orig.len() ==> (#[trigger] self.entries@[k]).breaker == orig[k].breaker,
                distinct_names(orig),
            decreases orig.len() - i,
        {
            let mut b = self.entries[i].breaker;
            b.record_success();
            let nm = self.entries[i].name.clone();
            self.entries.set(i, NamedBreaker { name: nm, breaker: b });
            i = i + 1;
        }
        proof {
            let e = self.entries@;
            assert(distinct_names(e)) by {
                assert forall|a: int, b: int| 0 <= a < e.len() && 0 <= b < e.len() && a != b
                    implies (#[trigger] e[a]).name@ != (#[trigger] e[b]).name@ by {
                    assert(orig[a].name@ != orig[b].name@);
                }
            }
            assert forall|n: Seq<char>| #[trigger] index_of(e, n) == index_of(orig, n) by {
                if exists|k: int| 0 <= k < e.len() && (#[trigger] e[k]).name@ == n {
                    let k = choose|k: int| 0 <= k < e.len() && (#[trigger] e[k]).name@ == n;
                    Self::lemma_index_of(e, k);
                    Self::lemma_index_of(orig, k);
                } else {
                    assert forall|k: int| 0 <= k < orig.len() implies (#[trigger] orig[k]).name@ != n by {
                        assert(e[k].name@ != n);
                    }
                }
            }
            assert(self.view_map().dom() =~= old(self).view_map().dom());
        }
        Ok(())
    }

    /// Statistics of every breaker at time `now`, one entry per component, in creation order.
    pub fn get_statistics_at(&self, now: u64) -> (r: Vec<(String, CircuitBreakerStatistics)>)
        requires
            self.wf(),
        ensures
            r@.len() == self.names().len(),
            forall|n: Seq<char>| #[trigger] self.view_map().contains_key(n) ==> exists|k: int| 0 <= k < r@.len() && (#[trigger] r@[k]).0@ == n,
            forall|k: int| 0 <= k < r@.len() ==> {
                let n = (#[trigger] r@[k]).0@;
                let b = self.view_map()[n];
                &&& n == self.names()[k]
                &&& self.view_map().contains_key(n)
                &&& r@[k].1.status == b.state
                &&& r@[k].1.failure_count == b.failure_count
                &&& r@[k].1.recovery_timeout_seconds == b.recovery_timeout_ms / 1000
                &&& r@[k].1.last_failure_seconds_ago == (match b.last_failure_ms {
                    Some(t) => Some((spec_elapsed(now, t) / 1000) as u64),
                    None => None,
                })
            },
    {
        let mut out: Vec<(String, CircuitBreakerStatistics)> = Vec::new();
        let mut i: usize = 0;
        while i < self.entries.len()
            invariant
                i <= self.entries@.len(),
                out@.len() == i,
                distinct_names(self.entries@),
                forall|k: int| 0 <= k < i ==> {
                    let e = self.entries@[k];
                    &&& (#[trigger] out@[k]).0@ == e.name@
                    &&& out@[k].1.status == e.breaker.state
                    &&& out@[k].1.failure_count == e.breaker.failure_count
                    &&& out@[k].1.recovery_timeout_seconds == e.breaker.recovery_timeout_ms / 1000
                    &&& out@[k].1.last_failure_seconds_ago == (match e.breaker.last_failure_ms {
                        Some(t) => Some((spec_elapsed(now, t) / 1000) as u64),
                        None => None,
                    })
                },
            decreases self.entries@.len() - i,
        {
            let st = self.entries[i].breaker.get_statistics_at(now);
            out.push((self.entries[i].name.clone(), st));
            i = i + 1;
        }
        proof {
            assert forall|k: int| 0 <= k < out@.len() implies index_of(self.entries@, (#[trigger] out@[k]).0@) == Some(k) by {
                Self::lemma_index_of(self.entries@, k);
            }
            assert forall|n: Seq<char>| #[trigger] self.view_map().contains_key(n) implies
                exists|k: int| 0 <= k < out@.len() && (#[trigger] out@[k]).0@ == n by {
                let k = index_of(self.entries@, n)->0;
                assert(out@[k].0@ == n);
            }
        }
        out
    }
}

/// The answer and the breakers after a manager-level `can_execute` for `name` at `now`.
pub open spec fn check_outcome(m0: Map<Seq<char>, CircuitBreakerState>, name: Seq<char>, default: CircuitBreakerConfig, now: u64) -> (bool, Map<Seq<char>, CircuitBreakerState>) {
    let m = ensured(m0, name, default);
    (m[name].spec_allows(now), m.insert(name, m[name].spec_after_check(now)))
}

/// The breakers after a manager-level failure of `name` at `now`.
pub open spec fn failure_outcome(m0: Map<Seq<char>, CircuitBreakerState>, name: Seq<char>, default: CircuitBreakerConfig, now: u64) -> Map<Seq<char>, CircuitBreakerState> {
    let m = ensured(m0, name, default);
    m.insert(name, m[name].spec_record_failure(now))
}

/// The breakers after making sure `name` has one: unchanged if it has, otherwise a fresh
/// breaker with the default configuration is added.
pub open spec fn ensured(m: Map<Seq<char>, CircuitBreakerState>, name: Seq<char>, default: CircuitBreakerConfig) -> Map<Seq<char>, CircuitBreakerState> {
    if m.contains_key(name) {
        m
    } else {
        m.insert(name, CircuitBreakerState::spec_fresh(default.failure_threshold, default.recovery_timeout_ms))
    }
}

impl CircuitBreakerState {
    /// A closed breaker with no failures and the given threshold and timeout.
    pub open spec fn spec_fresh(threshold: u64, timeout_ms: u64) -> Self {
        CircuitBreakerState {
            failure_count: 0,
            last_failure_ms: None,
            state: CircuitBreakerStatus::Closed,
            recovery_timeout_ms: timeout_ms,
            failure_threshold: threshold,
        }
    }
}

/// Circuit breaker management, as offered to the orchestrator. The methods that depend on the
/// time read the clock.
pub trait CircuitBreakerManagerTrait {
    /// The manager is well formed (one breaker per component name).
    spec fn ready_inv(&self) -> bool;

    /// Whether a request for `component` may pass now.
    fn can_execute(&mut self, component: &str) -> (r: bool)
        requires
            old(self).ready_inv(),
        ensures
            final(self).ready_inv(),
    ;

    /// Records a success for `component`.
    fn record_success(&mut self, component: &str)
        requires
            old(self).ready_inv(),
        ensures
            final(self).ready_inv(),
    ;

    /// Records a failure for `component` now.
    fn record_failure(&mut self, component: &str)
        requires
            old(self).ready_inv(),
        ensures
            final(self).ready_inv(),
    ;

    /// The status of the breaker of `component`, if it has one.
    fn get_status(&self, component: &str) -> Option<CircuitBreakerStatus>
        requires
            self.ready_inv(),
    ;

    /// Closes every breaker.
    fn reset_all(&mut self) -> (r: Result<(), anyhow::Error>)
        requires
            old(self).ready_inv(),
        ensures
            final(self).ready_inv(),
    ;

    /// Statistics of every breaker now.
    fn get_statistics(&self) -> Vec<(String, CircuitBreakerStatistics)>
        requires
            self.ready_inv(),
    ;
}

impl CircuitBreakerManagerTrait for CircuitBreakerManager {
    open spec fn ready_inv(&self) -> bool {
        self.wf()
    }

    fn can_execute(&mut self, component: &str) -> (r: bool)
        ensures
            final(self).spec_default_config() == old(self).spec_default_config(),
            exists|now: u64| #[trigger] check_outcome(old(self).view_map(), component@, old(self).spec_default_config(), now)
                == (r, final(self).view_map()),
    {
        let now = now_millis();
        let r = self.can_execute_at(component, now);
        assert(check_outcome(old(self).view_map(), component@, old(self).spec_default_config(), now) == (r, self.view_map()));
        r
    }

    fn record_success(&mut self, component: &str)
        ensures
            final(self).spec_default_config() == old(self).spec_default_config(),
            ({
                let m = ensured(old(self).view_map(), component@, old(self).spec_default_config());
                final(self).view_map() == m.insert(component@, m[component@].spec_record_success())
            }),
    {
        self.record_success_for(component);
    }

    fn record_failure(&mut self, component: &str)
        ensures
            final(self).spec_default_config() == old(self).spec_default_config(),
            exists|now: u64| #[trigger] failure_outcome(old(self).view_map(), component@, old(self).spec_default_config(), now)
                == final(self).view_map(),
    {
        let now = now_millis();
        self.record_failure_at(component, now);
        assert(failure_outcome(old(self).view_map(), component@, old(self).spec_default_config(), now) == self.view_map());
    }

    fn get_status(&self, component: &str) -> (r: Option<CircuitBreakerStatus>)
        ensures
            r == (if self.view_map().contains_key(component@) {
                Some(self.view_map()[component@].state)
            } else {
                None
            }),
    {
        CircuitBreakerManager::get_status(self, component)
    }

    fn reset_all(&mut self) -> (r: Result<(), anyhow::Error>)
        ensures
            r is Ok,
            final(self).spec_default_config() == old(self).spec_default_config(),
            final(self).view_map().dom() == old(self).view_map().dom(),
            forall|n: Seq<char>| #[trigger] final(self).view_map().contains_key(n)
                ==> final(self).view_map()[n] == old(self).view_map()[n].spec_record_success(),
    {
        CircuitBreakerManager::reset_all(self)
    }

    fn get_statistics(&self) -> (r: Vec<(String, CircuitBreakerStatistics)>)
        ensures
            r@.len() == self.names().len(),
            forall|k: int| 0 <= k < r@.len() ==> {
                let n = (#[trigger] r@[k]).0@;
                let b = self.view_map()[n];
                &&& n == self.names()[k]
                &&& self.view_map().contains_key(n)
                &&& r@[k].1.status == b.state
                &&& r@[k].1.failure_count == b.failure_count
                &&& r@[k].1.recovery_timeout_seconds == b.recovery_timeout_ms / 1000
                &&& (r@[k].1.last_failure_seconds_ago is Some <==> b.last_failure_ms is Some)
            },
    {
        let now = now_millis();
        self.get_statistics_at(now)
    }
}


/// A failure that brings the count to the threshold opens the circuit, whatever state it was
/// in (a failed recovery probe in the half-open state reopens it): the circuit then refuses
/// every request until the recovery timeout has passed since that failure.
pub proof fn lemma_failure_at_threshold_opens(b: CircuitBreakerState, now: u64, later: u64)
    requires
        b.failure_count < u64::MAX,
        b.failure_count + 1 >= b.failure_threshold,
    ensures
        b.spec_record_failure(now).state == CircuitBreakerStatus::Open,
        b.spec_record_failure(now).failure_count == b.failure_count + 1,
        b.spec_record_failure(now).last_failure_ms == Some(now),
        spec_elapsed(later, now) < b.recovery_timeout_ms ==> !b.spec_record_failure(now).spec_allows(later),
        spec_elapsed(later, now) < b.recovery_timeout_ms ==> b.spec_record_failure(now).spec_after_check(later).state == CircuitBreakerStatus::Open,
{
}

/// After a trip, a half-open probe that fails reopens the circuit: with the breaker tripped
/// by `b`'s failure at `t` and probed at `probe` once the timeout passed, a failure at `f`
/// leaves it open and refusing at every `later` within the timeout of `f`.
pub proof fn lemma_failed_probe_reopens(b: CircuitBreakerState, t: u64, probe: u64, f: u64, later: u64)
    requires
        b.failure_count < u64::MAX - 1,
        b.failure_count + 1 >= b.failure_threshold,
        spec_elapsed(probe, t) >= b.recovery_timeout_ms,
        spec_elapsed(later, f) < b.recovery_timeout_ms,
    ensures
        ({
            let tripped = b.spec_record_failure(t);
            let probed = tripped.spec_after_check(probe);
            let failed = probed.spec_record_failure(f);
            &&& tripped.spec_allows(probe)
            &&& probed.state == CircuitBreakerStatus::HalfOpen
            &&& failed.state == CircuitBreakerStatus::Open
            &&& !failed.spec_allows(later)
        }),
{
    lemma_failure_at_threshold_opens(b, t, probe);
    let probed = b.spec_record_failure(t).spec_after_check(probe);
    lemma_failure_at_threshold_opens(probed, f, later);
}

} // verus!
