//! Decisions of the search coordinator: its circuit breaker (ten failures open it, three
//! successes in recovery close it), the query cache with its adaptive lifetimes and
//! clean-ups, how far a reranked search widens, and how reranked results are picked.
//!
//! Embedding, vector search and reranking run outside this library; cached results are
//! carried as values of any type. Times are milliseconds.

use vstd::prelude::*;

use crate::clock::{elapsed_ms, spec_elapsed};
use crate::counters::{bump, bump_exec};
use crate::keyed::{distinct_keys, find_key, first_at, lemma_value_absent, lemma_value_at_first, lemma_value_push, lemma_value_remove, lemma_value_update, value_of};

verus! {

/// A layer of the memory store.
#[derive(Debug, Clone, Copy, PartialEq, Eq, Structural)]
pub enum Layer {
    Interact,
    Insights,
    Assets,
}

/// State of the search circuit breaker.
#[derive(Debug, Clone, Copy, PartialEq, Eq, Structural)]
pub enum CircuitState {
    Closed,
    Open,
    HalfOpen,
}

/// The search circuit breaker.
#[derive(Debug, Clone, Copy, PartialEq, Eq, Structural)]
pub struct SearchCircuitBreaker {
    pub failure_count: u32,
    /// Successes seen while recovering (never reset).
    pub success_count: u32,
    pub state: CircuitState,
    pub last_failure_ms: Option<u64>,
    pub failure_threshold: u32,
    pub recovery_timeout_ms: u64,
}

/// `n + 1`, wrapping past `u32::MAX`.
pub open spec fn inc32(n: u32) -> u32 {
    if n < u32::MAX { (n + 1) as u32 } else { 0 }
}

impl SearchCircuitBreaker {
    /// Whether a search may pass at `now`: not while open, unless the recovery timeout has
    /// been exceeded since the last failure.
    pub open spec fn allows(self, now: u64) -> bool {
        self.state != CircuitState::Open || (self.last_failure_ms matches Some(t) && spec_elapsed(now, t) > self.recovery_timeout_ms)
    }

    /// The breaker after asking at `now`: an open breaker past its timeout turns half-open.
    pub open spec fn after_check(self, now: u64) -> Self {
        if self.state == CircuitState::Open && self.allows(now) { SearchCircuitBreaker { state: CircuitState::HalfOpen, ..self } } else { self }
    }

    /// The breaker after a success: in recovery, the third success closes it and clears the
    /// failures; when closed, the failures are cleared.
    pub open spec fn after_success(self) -> Self {
        match self.state {
            CircuitState::HalfOpen => {
                let s = inc32(self.success_count);
                if s >= 3 {
                    SearchCircuitBreaker { success_count: s, state: CircuitState::Closed, failure_count: 0, ..self }
                } else {
                    SearchCircuitBreaker { success_count: s, ..self }
                }
            },
            CircuitState::Closed => SearchCircuitBreaker { failure_count: 0, ..self },
            CircuitState::Open => self,
        }
    }

    /// The breaker after a failure at `now`: closed, it opens once the failures reach the
    /// threshold; in recovery it opens again.
    pub open spec fn after_failure(self, now: u64) -> Self {
        let f = inc32(self.failure_count);
        let state = match self.state {
            CircuitState::Closed => if f >= self.failure_threshold { CircuitState::Open } else { CircuitState::Closed },
            CircuitState::HalfOpen => CircuitState::Open,
            CircuitState::Open => CircuitState::Open,
        };
        SearchCircuitBreaker { failure_count: f, last_failure_ms: Some(now), state, ..self }
    }

    /// A closed breaker that opens after ten failures and recovers after a minute.
    pub fn new() -> (b: Self)
        ensures
            b == (SearchCircuitBreaker {
                failure_count: 0,
                success_count: 0,
                state: CircuitState::Closed,
                last_failure_ms: None,
                failure_threshold: 10,
                recovery_timeout_ms: 60_000,
            }),
    {
        SearchCircuitBreaker {
            failure_count: 0,
            success_count: 0,
            state: CircuitState::Closed,
            last_failure_ms: None,
            failure_threshold: 10,
            recovery_timeout_ms: 60_000,
        }
    }

    /// Asks whether a search may pass at `now_ms`; refused searches get the breaker's message.
    pub fn check(&mut self, now_ms: u64) -> (r: Result<(), String>)
        ensures
            r is Ok == old(self).allows(now_ms),
            r matches Err(e) ==> e@ == "🚫 Search circuit breaker OPEN - поиск временно недоступен"@,
            *final(self) == old(self).after_check(now_ms),
    {
        match self.state {
            CircuitState::Open => {
                match self.last_failure_ms {
                    Some(t) => {
                        if elapsed_ms(now_ms, t) > self.recovery_timeout_ms {
                            self.state = CircuitState::HalfOpen;
                            return Ok(());
                        }
                    },
                    None => {},
                }
                Err("🚫 Search circuit breaker OPEN - поиск временно недоступен".to_owned())
            },
            _ => Ok(()),
        }
    }

    /// Records a successful search.
    pub fn record_success(&mut self)
        ensures
            *final(self) == old(self).after_success(),
    {
        match self.state {
            CircuitState::HalfOpen => {
                self.success_count = if self.success_count < u32::MAX { self.success_count + 1 } else { 0 };
                if self.success_count >= 3 {
                    self.state = CircuitState::Closed;
                    self.failure_count = 0;
                }
            },
            CircuitState::Closed => {
                self.failure_count = 0;
            },
            CircuitState::Open => {},
        }
    }

    /// Records a failed search at `now_ms`.
    pub fn record_failure(&mut self, now_ms: u64)
        ensures
            *final(self) == old(self).after_failure(now_ms),
    {
        self.failure_count = if self.failure_count < u32::MAX { self.failure_count + 1 } else { 0 };
        self.last_failure_ms = Some(now_ms);
        match self.state {
            CircuitState::Closed => {
                if self.failure_count >= self.failure_threshold {
                    self.state = CircuitState::Open;
                }
            },
            CircuitState::HalfOpen => {
                self.state = CircuitState::Open;
            },
            CircuitState::Open => {},
        }
    }
}

/// The breaker after `n` failures at `now`.
pub open spec fn search_failures(b: SearchCircuitBreaker, n: nat, now: u64) -> SearchCircuitBreaker
    decreases n,
{
    if n == 0 { b } else { search_failures(b, (n - 1) as nat, now).after_failure(now) }
}

/// Ten failures open a fresh breaker, which then refuses searches for the recovery minute;
/// past it a search passes in recovery, a failure there opens it again, and three successes
/// close it.
pub proof fn lemma_search_breaker_cycle(now: u64, later: u64)
    ensures
        ({
            let fresh = SearchCircuitBreaker {
                failure_count: 0,
                success_count: 0,
                state: CircuitState::Closed,
                last_failure_ms: None,
                failure_threshold: 10,
                recovery_timeout_ms: 60_000,
            };
            let opened = search_failures(fresh, 10, now);
            let probing = opened.after_check(later);
            &&& search_failures(fresh, 9, now).state == CircuitState::Closed
            &&& opened.state == CircuitState::Open
            &&& (spec_elapsed(later, now) <= 60_000 ==> !opened.allows(later))
            &&& (spec_elapsed(later, now) > 60_000 ==> {
                &&& opened.allows(later) && probing.state == CircuitState::HalfOpen
                &&& probing.after_failure(later).state == CircuitState::Open
                &&& probing.after_success().after_success().state == CircuitState::HalfOpen
                &&& probing.after_success().after_success().after_success().state == CircuitState::Closed
            })
        }),
{
    let fresh = SearchCircuitBreaker {
        failure_count: 0,
        success_count: 0,
        state: CircuitState::Closed,
        last_failure_ms: None,
        failure_threshold: 10,
        recovery_timeout_ms: 60_000,
    };
    reveal_with_fuel(search_failures, 11);
    assert(search_failures(fresh, 9, now).failure_count == 9);
}

/// The lifetime of a cached result: 3 minutes for the interaction layer, 10 for insights, 30
/// for assets, doubled for fewer than 5 results and multiplied by 1.5 for fewer than 20.
pub open spec fn spec_ttl_secs(layer: Layer, result_count: nat) -> u64 {
    let base: u64 = match layer {
        Layer::Interact => 180,
        Layer::Insights => 600,
        Layer::Assets => 1800,
    };
    if result_count < 5 { (base * 2) as u64 } else if result_count < 20 { (base * 3 / 2) as u64 } else { base }
}

/// The lifetime in seconds of a cached result of `result_count` records in `layer`.
pub fn adaptive_ttl_secs(layer: Layer, result_count: usize) -> (t: u64)
    ensures
        t == spec_ttl_secs(layer, result_count as nat),
{
    let base: u64 = match layer {
        Layer::Interact => 180,
        Layer::Insights => 600,
        Layer::Assets => 1800,
    };
    if result_count < 5 { base * 2 } else if result_count < 20 { base * 3 / 2 } else { base }
}

/// How many candidates a reranked search asks for: three times the result count, at most 100.
pub fn expanded_top_k(top_k: usize) -> (k: usize)
    requires
        top_k * 3 <= usize::MAX,
    ensures
        k == (if top_k * 3 < 100 { top_k * 3 } else { 100 }),
{
    let t = top_k * 3;
    if t < 100 { t } else { 100 }
}

/// The candidates a reranking picks: the first `top_k` of its ranking, skipping positions
/// that name no candidate.
pub open spec fn spec_rerank_pick(ranking: Seq<usize>, top_k: nat, candidates: nat) -> Seq<usize> {
    ranking.take(if ranking.len() < top_k { ranking.len() as int } else { top_k as int }).filter(|i: usize| i < candidates)
}

/// The positions of the candidates to return after reranking, in rank order.
pub fn rerank_pick(ranking: &Vec<usize>, top_k: usize, candidates: usize) -> (r: Vec<usize>)
    ensures
        r@ == spec_rerank_pick(ranking@, top_k as nat, candidates as nat),
{
    let n = if ranking.len() < top_k { ranking.len() } else { top_k };
    let ghost pred = |i: usize| i < candidates;
    let mut out: Vec<usize> = Vec::new();
    let mut j: usize = 0;
    while j < n
        invariant
            n <= ranking@.len(),
            j <= n,
            pred == (|i: usize| i < candidates),
            out@ == ranking@.take(j as int).filter(pred),
        decreases n - j,
    {
        proof {
            assert(ranking@.take(j + 1) =~= ranking@.take(j as int).push(ranking@[j as int]));
            ranking@.take(j as int).lemma_filter_push(ranking@[j as int], pred);
        }
        if ranking[j] < candidates {
            out.push(ranking[j]);
        }
        j = j + 1;
    }
    out
}

/// The queries searched in advance, in each layer, to warm the cache.
pub fn popular_queries() -> (r: Vec<&'static str>)
    ensures
        r@.map_values(|s: &str| s@) == seq!["hello world"@, "machine learning"@, "rust programming"@, "embedding search"@, "vector database"@],
{
    let r = vec!["hello world", "machine learning", "rust programming", "embedding search", "vector database"];
    proof {
        assert(r@.map_values(|s: &str| s@) =~= seq!["hello world"@, "machine learning"@, "rust programming"@, "embedding search"@, "vector database"@]);
    }
    r
}

/// A cached search result.
#[derive(Debug)]
pub struct CachedSearchResult<V> {
    pub value: V,
    pub result_count: usize,
    pub created_at_ms: u64,
    pub ttl_ms: u64,
    pub layer: Layer,
}

/// Whether an entry has outlived its lifetime at `now` (strictly).
pub open spec fn expired<V>(e: CachedSearchResult<V>, now: u64) -> bool {
    spec_elapsed(now, e.created_at_ms) > e.ttl_ms
}

/// How much an entry is worth keeping at `now`: expired entries are worth least; otherwise
/// ten per result, a bonus for stable layers (50 assets, 30 insights, 10 interaction), minus
/// its age in minutes.
pub open spec fn keep_score<V>(e: CachedSearchResult<V>, now: u64) -> int {
    if expired(e, now) {
        -1000
    } else {
        e.result_count * 10 + match e.layer {
            Layer::Assets => 50int,
            Layer::Insights => 30int,
            Layer::Interact => 10int,
        } - spec_elapsed(now, e.created_at_ms) / 60_000
    }
}

/// The first position of a lowest-scoring entry.
pub open spec fn lowest<V>(s: Seq<(String, CachedSearchResult<V>)>, now: u64) -> int
    decreases s.len(),
{
    if s.len() <= 1 {
        0
    } else {
        let j = lowest(s.drop_last(), now);
        if keep_score(s.last().1, now) < keep_score(s[j].1, now) { s.len() - 1 } else { j }
    }
}

/// The entries left after removing the `k` lowest-scoring ones, one at a time (the first of
/// equals first).
pub open spec fn without_lowest<V>(s: Seq<(String, CachedSearchResult<V>)>, k: nat, now: u64) -> Seq<(String, CachedSearchResult<V>)>
    decreases k,
{
    if k == 0 || s.len() == 0 { s } else { without_lowest(s.remove(lowest(s, now)), (k - 1) as nat, now) }
}

proof fn lemma_lowest<V>(s: Seq<(String, CachedSearchResult<V>)>, now: u64)
    requires
        s.len() > 0,
    ensures
        0 <= lowest(s, now) < s.len(),
        forall|k: int| 0 <= k < s.len() ==> keep_score(s[lowest(s, now)].1, now) <= keep_score(#[trigger] s[k].1, now),
    decreases s.len(),
{
    if s.len() > 1 {
        lemma_lowest(s.drop_last(), now);
        assert forall|k: int| 0 <= k < s.len() implies keep_score(s[lowest(s, now)].1, now) <= keep_score(#[trigger] s[k].1, now) by {
            if k < s.len() - 1 {
                assert(s.drop_last()[k] == s[k]);
            }
        }
    }
}

/// How many cached results come from `layer`.
pub open spec fn layer_count<V>(s: Seq<(String, CachedSearchResult<V>)>, layer: Layer) -> nat
    decreases s.len(),
{
    if s.len() == 0 {
        0
    } else {
        layer_count(s.drop_last(), layer) + if s.last().1.layer == layer { 1nat } else { 0nat }
    }
}

/// The query cache.
pub struct QueryCache<V> {
    entries: Vec<(String, CachedSearchResult<V>)>,
    max_size: usize,
    hits: u64,
    misses: u64,
}

impl<V> QueryCache<V> {
    /// The cached entries with their keys, oldest first.
    pub closed spec fn contents(&self) -> Seq<(String, CachedSearchResult<V>)> {
        self.entries@
    }

    pub closed spec fn capacity(&self) -> nat {
        self.max_size as nat
    }

    pub closed spec fn hit_count(&self) -> u64 {
        self.hits
    }

    pub closed spec fn miss_count(&self) -> u64 {
        self.misses
    }

    /// The most entries the cache holds before it drops some.
    pub fn max_size(&self) -> (n: usize)
        ensures
            n == self.capacity(),
    {
        self.max_size
    }

    /// Hits and misses so far.
    pub fn hit_stats(&self) -> (r: (u64, u64))
        ensures
            r == (self.hit_count(), self.miss_count()),
    {
        (self.hits, self.misses)
    }

    /// How many cached results come from each layer: interaction, insights, assets.
    pub fn layer_distribution(&self) -> (r: (usize, usize, usize))
        ensures
            r.0 == layer_count(self.contents(), Layer::Interact),
            r.1 == layer_count(self.contents(), Layer::Insights),
            r.2 == layer_count(self.contents(), Layer::Assets),
    {
        let mut counts: (usize, usize, usize) = (0, 0, 0);
        let mut i: usize = 0;
        while i < self.entries.len()
            invariant
                i <= self.entries@.len(),
                counts.0 == layer_count(self.entries@.take(i as int), Layer::Interact),
                counts.1 == layer_count(self.entries@.take(i as int), Layer::Insights),
                counts.2 == layer_count(self.entries@.take(i as int), Layer::Assets),
                counts.0 + counts.1 + counts.2 == i,
            decreases self.entries@.len() - i,
        {
            proof {
                assert(self.entries@.take(i + 1).drop_last() =~= self.entries@.take(i as int));
            }
            match self.entries[i].1.layer {
                Layer::Interact => counts.0 = counts.0 + 1,
                Layer::Insights => counts.1 = counts.1 + 1,
                Layer::Assets => counts.2 = counts.2 + 1,
            }
            i = i + 1;
        }
        proof {
            assert(self.entries@.take(i as int) =~= self.entries@);
        }
        counts
    }

    /// No key is cached twice.
    pub open spec fn wf(&self) -> bool {
        distinct_keys(self.contents())
    }

    /// An empty cache of at most `max_size` entries.
    pub fn new(max_size: usize) -> (c: Self)
        ensures
            c.wf(),
            c.contents().len() == 0,
            c.capacity() == max_size,
            c.hit_count() == 0 && c.miss_count() == 0,
    {
        QueryCache { entries: Vec::new(), max_size, hits: 0, misses: 0 }
    }

    /// How many entries are cached.
    pub fn len(&self) -> (n: usize)
        ensures
            n == self.contents().len(),
    {
        self.entries.len()
    }

    /// Looks `key` up at `now_ms`: a hit when cached and younger than its lifetime; a cached
    /// entry that is too old is dropped. Hits and misses are counted.
    pub fn lookup(&mut self, key: &str, now_ms: u64) -> (hit: bool)
        requires
            old(self).wf(),
        ensures
            final(self).wf(),
            final(self).capacity() == old(self).capacity(),
            match value_of(old(self).contents(), key@) {
                Some(e) => if spec_elapsed(now_ms, e.created_at_ms) < e.ttl_ms {
                    hit && final(self).contents() == old(self).contents()
                        && final(self).hit_count() == bump(old(self).hit_count()) && final(self).miss_count() == old(self).miss_count()
                } else {
                    &&& !hit
                    &&& value_of(final(self).contents(), key@) is None
                    &&& forall|k: Seq<char>| k != key@ ==> #[trigger] value_of(final(self).contents(), k) == value_of(old(self).contents(), k)
                    &&& final(self).contents().len() == old(self).contents().len() - 1
                    &&& final(self).miss_count() == bump(old(self).miss_count()) && final(self).hit_count() == old(self).hit_count()
                },
                None => !hit && final(self).contents() == old(self).contents()
                    && final(self).miss_count() == bump(old(self).miss_count()) && final(self).hit_count() == old(self).hit_count(),
            },
    {
        let ghost s = self.entries@;
        match find_key(&self.entries, key) {
            Some(i) => {
                proof { lemma_value_at_first(s, i as int, key@); }
                if elapsed_ms(now_ms, self.entries[i].1.created_at_ms) < self.entries[i].1.ttl_ms {
                    self.hits = bump_exec(self.hits);
                    return true;
                }
                self.entries.remove(i);
                proof {
                    let s2 = s.remove(i as int);
                    assert(self.entries@ == s2);
                    assert forall|k: Seq<char>| k != key@ implies #[trigger] value_of(s2, k) == value_of(s, k) by {
                        lemma_value_remove(s, i as int, key@, k);
                    }
                    assert forall|j: int| 0 <= j < s2.len() implies (#[trigger] s2[j]).0@ != key@ by {
                        if j < i { assert(s2[j] == s[j]); } else { assert(s2[j] == s[j + 1]); }
                    }
                    lemma_value_absent(s2, key@);
                    assert forall|a: int, b: int| 0 <= a < s2.len() && 0 <= b < s2.len() && a != b
                        implies (#[trigger] s2[a]).0@ != (#[trigger] s2[b]).0@ by {
                        let a0 = if a < i { a } else { a + 1 };
                        let b0 = if b < i { b } else { b + 1 };
                        assert(s2[a] == s[a0] && s2[b] == s[b0]);
                    }
                }
                self.misses = bump_exec(self.misses);
                false
            },
            None => {
                proof { lemma_value_absent(s, key@); }
                self.misses = bump_exec(self.misses);
                false
            },
        }
    }

    /// The cached value of `key`, if any.
    pub fn get(&self, key: &str) -> (r: Option<&V>)
        ensures
            match value_of(self.contents(), key@) {
                Some(e) => r == Some(&e.value),
                None => r is None,
            },
    {
        match find_key(&self.entries, key) {
            Some(i) => {
                proof { lemma_value_at_first(self.entries@, i as int, key@); }
                Some(&self.entries[i].1.value)
            },
            None => {
                proof { lemma_value_absent(self.entries@, key@); }
                None
            },
        }
    }

    /// Caches `value` (`result_count` records from `layer`) under `key` at `now_ms`, with the
    /// adaptive lifetime. When the cache is full, the oldest tenth of its capacity is dropped
    /// first.
    pub fn cache_result(&mut self, key: &str, value: V, result_count: usize, layer: Layer, now_ms: u64)
        requires
            old(self).wf(),
        ensures
            final(self).wf(),
            final(self).capacity() == old(self).capacity(),
            final(self).hit_count() == old(self).hit_count() && final(self).miss_count() == old(self).miss_count(),
            ({
                let kept = if old(self).contents().len() >= old(self).capacity() {
                    old(self).contents().skip((old(self).capacity() / 10) as int)
                } else {
                    old(self).contents()
                };
                &&& value_of(final(self).contents(), key@) matches Some(e)
                    && e.value == value && e.result_count == result_count && e.layer == layer
                    && e.created_at_ms == now_ms && e.ttl_ms == spec_ttl_secs(layer, result_count as nat) * 1000
                &&& forall|k: Seq<char>| k != key@ ==> #[trigger] value_of(final(self).contents(), k) == value_of(kept, k)
                &&& final(self).contents().len() <= kept.len() + 1
            }),
            old(self).capacity() >= 10 && old(self).contents().len() <= old(self).capacity()
                ==> final(self).contents().len() <= final(self).capacity(),
    {
        let ghost orig = self.entries@;
        if self.entries.len() >= self.max_size {
            let drop = self.max_size / 10;
            let mut d: usize = 0;
            while d < drop
                invariant
                    d <= drop,
                    drop == self.max_size / 10,
                    self.max_size == old(self).capacity(),
                    orig.len() >= self.max_size,
                    self.entries@ == orig.skip(d as int),
                    self.hits == old(self).hit_count() && self.misses == old(self).miss_count(),
                decreases drop - d,
            {
                proof {
                    assert(drop <= orig.len()) by (nonlinear_arith)
                        requires drop == self.max_size / 10, orig.len() >= self.max_size;
                }
                self.entries.remove(0);
                proof { assert(self.entries@ =~= orig.skip(d + 1)); }
                d = d + 1;
            }
        }
        let ghost kept = self.entries@;
        proof {
            assert forall|a: int, b: int| 0 <= a < kept.len() && 0 <= b < kept.len() && a != b
                implies (#[trigger] kept[a]).0@ != (#[trigger] kept[b]).0@ by {
                let off = orig.len() - kept.len();
                assert(kept[a] == orig[a + off] && kept[b] == orig[b + off]);
            }
        }
        let ttl_ms = adaptive_ttl_secs(layer, result_count) * 1000;
        let entry = CachedSearchResult { value, result_count, created_at_ms: now_ms, ttl_ms, layer };
        let p = (key.to_owned(), entry);
        match find_key(&self.entries, key) {
            Some(i) => {
                proof {
                    assert forall|k: Seq<char>| #[trigger] value_of(kept.update(i as int, p), k)
                        == (if k == p.0@ { Some(p.1) } else { value_of(kept, k) }) by {
                        lemma_value_update(kept, i as int, p, k);
                    }
                }
                self.entries.set(i, p);
                proof {
                    let s2 = self.entries@;
                    assert forall|a: int, b: int| 0 <= a < s2.len() && 0 <= b < s2.len() && a != b
                        implies (#[trigger] s2[a]).0@ != (#[trigger] s2[b]).0@ by {
                        if a != i && b != i {
                            assert(s2[a] == kept[a] && s2[b] == kept[b]);
                        } else if a == i {
                            assert(s2[b] == kept[b]);
                        } else {
                            assert(s2[a] == kept[a]);
                        }
                    }
                }
            },
            None => {
                proof {
                    lemma_value_absent(kept, key@);
                    assert forall|k: Seq<char>| #[trigger] value_of(kept.push(p), k)
                        == (match value_of(kept, k) {
                            Some(v) => Some(v),
                            None => if p.0@ == k { Some(p.1) } else { None },
                        }) by {
                        lemma_value_push(kept, p, k);
                    }
                }
                self.entries.push(p);
                proof {
                    let s2 = self.entries@;
                    assert forall|a: int, b: int| 0 <= a < s2.len() && 0 <= b < s2.len() && a != b
                        implies (#[trigger] s2[a]).0@ != (#[trigger] s2[b]).0@ by {
                        if a < kept.len() && b < kept.len() {
                            assert(s2[a] == kept[a] && s2[b] == kept[b]);
                        } else if a < kept.len() {
                            assert(s2[a] == kept[a]);
                        } else {
                            assert(s2[b] == kept[b]);
                        }
                    }
                }
            },
        }
    }

    /// Drops the entries that outlived their lifetime at `now_ms`, keeping the order of the
    /// others.
    pub fn cleanup_expired(&mut self, now_ms: u64)
        requires
            old(self).wf(),
        ensures
            final(self).wf(),
            final(self).contents() == old(self).contents().filter(|e: (String, CachedSearchResult<V>)| !expired(e.1, now_ms)),
            final(self).capacity() == old(self).capacity(),
            final(self).hit_count() == old(self).hit_count() && final(self).miss_count() == old(self).miss_count(),
    {
        let ghost keep = |e: (String, CachedSearchResult<V>)| !expired(e.1, now_ms);
        let ghost all = self.entries@;
        let mut rest: Vec<(String, CachedSearchResult<V>)> = Vec::new();
        std::mem::swap(&mut rest, &mut self.entries);
        let total = rest.len();
        let mut kept: Vec<(String, CachedSearchResult<V>)> = Vec::new();
        let mut i: usize = 0;
        while rest.len() > 0
            invariant
                all.len() == total,
                rest@ == all.skip(i as int),
                i <= all.len(),
                keep == (|e: (String, CachedSearchResult<V>)| !expired(e.1, now_ms)),
                kept@ == all.take(i as int).filter(keep),
                self.max_size == old(self).capacity(),
                self.hits == old(self).hit_count() && self.misses == old(self).miss_count(),
            decreases rest@.len(),
        {
            proof {
                assert(all.skip(i as int)[0] == all[i as int]);
                assert(all.take(i + 1) =~= all.take(i as int).push(all[i as int]));
                all.take(i as int).lemma_filter_push(all[i as int], keep);
            }
            let e = rest.remove(0);
            proof { assert(rest@ =~= all.skip(i + 1)); }
            if !(elapsed_ms(now_ms, e.1.created_at_ms) > e.1.ttl_ms) {
                kept.push(e);
            }
            i = i + 1;
        }
        proof {
            assert(all.take(i as int) =~= all);
            lemma_filter_keeps_distinct(all, keep);
        }
        self.entries = kept;
    }

    /// When the cache is full, drops a quarter of it (at least one entry): the entries worth
    /// least at `now_ms` go first (see `keep_score`).
    pub fn adaptive_cleanup(&mut self, now_ms: u64)
        requires
            old(self).wf(),
        ensures
            final(self).wf(),
            old(self).contents().len() < old(self).capacity() ==> final(self).contents() == old(self).contents(),
            old(self).contents().len() >= old(self).capacity() ==> final(self).contents() == without_lowest(
                old(self).contents(),
                (if old(self).contents().len() / 4 > 1 { old(self).contents().len() / 4 } else { 1 }) as nat,
                now_ms,
            ),
            final(self).capacity() == old(self).capacity(),
            final(self).hit_count() == old(self).hit_count() && final(self).miss_count() == old(self).miss_count(),
    {
        let n = self.entries.len();
        if n < self.max_size {
            return;
        }
        let k = if n / 4 > 1 { n / 4 } else { 1 };
        let ghost goal = without_lowest(self.entries@, k as nat, now_ms);
        let mut r: usize = 0;
        while r < k
            invariant
                r <= k,
                without_lowest(self.entries@, (k - r) as nat, now_ms) == goal,
                distinct_keys(self.entries@),
                self.max_size == old(self).capacity(),
                self.hits == old(self).hit_count() && self.misses == old(self).miss_count(),
            ensures
                self.entries@ == goal,
                distinct_keys(self.entries@),
                self.max_size == old(self).capacity(),
                self.hits == old(self).hit_count() && self.misses == old(self).miss_count(),
            decreases k - r,
        {
            if self.entries.len() == 0 {
                proof {
                    assert(without_lowest(self.entries@, (k - r) as nat, now_ms) == self.entries@);
                }
                break;
            }
            let i = self.lowest_position(now_ms);
            let ghost before = self.entries@;
            self.entries.remove(i);
            proof {
                let s2 = self.entries@;
                assert(s2 == before.remove(lowest(before, now_ms)));
                assert forall|a: int, b: int| 0 <= a < s2.len() && 0 <= b < s2.len() && a != b
                    implies (#[trigger] s2[a]).0@ != (#[trigger] s2[b]).0@ by {
                    let a0 = if a < i { a } else { a + 1 };
                    let b0 = if b < i { b } else { b + 1 };
                    assert(s2[a] == before[a0] && s2[b] == before[b0]);
                }
            }
            r = r + 1;
            proof {
                if r == k {
                    assert(without_lowest(self.entries@, 0, now_ms) == self.entries@);
                }
            }
        }
    }

    /// The first position of a lowest-scoring entry (the cache must not be empty).
    fn lowest_position(&self, now_ms: u64) -> (i: usize)
        requires
            self.entries@.len() > 0,
        ensures
            i == lowest(self.entries@, now_ms),
            i < self.entries@.len(),
    {
        let s = &self.entries;
        let mut best: usize = 0;
        let mut best_score: i128 = score_of(&s[0].1, now_ms);
        let mut j: usize = 1;
        while j < s.len()
            invariant
                1 <= j <= s@.len(),
                best == lowest(s@.take(j as int), now_ms),
                best < j,
                best_score == keep_score(s@[best as int].1, now_ms),
            decreases s@.len() - j,
        {
            proof {
                let t = s@.take(j + 1);
                assert(t.drop_last() =~= s@.take(j as int));
                assert(t.last() == s@[j as int]);
                assert(t[best as int] == s@[best as int]);
            }
            let sc = score_of(&s[j].1, now_ms);
            if sc < best_score {
                best = j;
                best_score = sc;
            }
            j = j + 1;
        }
        proof { assert(s@.take(s@.len() as int) =~= s@); }
        best
    }
}

/// The keep score of an entry at `now_ms`.
fn score_of<V>(e: &CachedSearchResult<V>, now_ms: u64) -> (s: i128)
    ensures
        s == keep_score(*e, now_ms),
{
    let age = elapsed_ms(now_ms, e.created_at_ms);
    if age > e.ttl_ms {
        -1000
    } else {
        let bonus: i128 = match e.layer {
            Layer::Assets => 50,
            Layer::Insights => 30,
            Layer::Interact => 10,
        };
        e.result_count as i128 * 10 + bonus - (age / 60_000) as i128
    }
}

proof fn lemma_filter_keeps_distinct<A>(s: Seq<(String, A)>, p: spec_fn((String, A)) -> bool)
    requires
        distinct_keys(s),
    ensures
        distinct_keys(s.filter(p)),
    decreases s.len(),
{
    broadcast use vstd::seq_lib::group_filter_ensures;
    if s.len() > 0 {
        let rest = s.drop_last();
        assert(distinct_keys(rest)) by {
            assert forall|a: int, b: int| 0 <= a < rest.len() && 0 <= b < rest.len() && a != b
                implies (#[trigger] rest[a]).0@ != (#[trigger] rest[b]).0@ by {
                assert(rest[a] == s[a] && rest[b] == s[b]);
            }
        }
        lemma_filter_keeps_distinct(rest, p);
        reveal(Seq::filter);
        let fr = rest.filter(p);
        if p(s.last()) {
            let f = fr.push(s.last());
            assert(s.filter(p) == f);
            assert forall|a: int, b: int| 0 <= a < f.len() && 0 <= b < f.len() && a != b
                implies (#[trigger] f[a]).0@ != (#[trigger] f[b]).0@ by {
                if a < fr.len() && b < fr.len() {
                } else {
                    let other = if a < fr.len() { a } else { b };
                    assert(fr.contains(fr[other]));
                    rest.lemma_filter_contains_rev(p, fr[other]);
                    assert(rest.contains(fr[other]));
                    let w = choose|w: int| 0 <= w < rest.len() && rest[w] == fr[other];
                    assert(s[w] == rest[w]);
                    assert(s[s.len() - 1] == s.last());
                }
            }
        }
    }
}

/// Figures of the search operations. Latencies are moving averages in milliseconds: the first
/// value sets them, each later one weighs a tenth (rounded down).
#[derive(Debug, Clone, Copy, PartialEq, Eq, Structural)]
pub struct SearchMetrics {
    pub total_searches: u64,
    pub successful_searches: u64,
    pub failed_searches: u64,
    pub cache_hits: u64,
    pub cache_misses: u64,
    pub avg_search_latency_ms: u64,
    pub avg_embedding_latency_ms: u64,
    pub rerank_operations: u64,
}

/// The moving average after a value `x`.
pub open spec fn ema(avg: u64, x: u64) -> u64 {
    if avg == 0 { x } else { ((x + 9 * avg) / 10) as u64 }
}

fn ema_exec(avg: u64, x: u64) -> (r: u64)
    ensures
        r == ema(avg, x),
{
    if avg == 0 { x } else { ((x as u128 + 9 * avg as u128) / 10) as u64 }
}

impl SearchMetrics {
    /// No searches yet.
    pub fn new() -> (m: Self)
        ensures
            m == (SearchMetrics {
                total_searches: 0,
                successful_searches: 0,
                failed_searches: 0,
                cache_hits: 0,
                cache_misses: 0,
                avg_search_latency_ms: 0,
                avg_embedding_latency_ms: 0,
                rerank_operations: 0,
            }),
    {
        SearchMetrics {
            total_searches: 0,
            successful_searches: 0,
            failed_searches: 0,
            cache_hits: 0,
            cache_misses: 0,
            avg_search_latency_ms: 0,
            avg_embedding_latency_ms: 0,
            rerank_operations: 0,
        }
    }

    /// Records a search that took `total_latency_ms`, of which `embedding_latency_ms` went to
    /// the embedding (zero when none was computed).
    pub fn record_search(&mut self, total_latency_ms: u64, embedding_latency_ms: u64, success: bool)
        ensures
            old(self).total_searches == old(self).successful_searches + old(self).failed_searches
                && old(self).total_searches < u64::MAX
                ==> final(self).total_searches == final(self).successful_searches + final(self).failed_searches,
            *final(self) == (SearchMetrics {
                total_searches: bump(old(self).total_searches),
                successful_searches: if success { bump(old(self).successful_searches) } else { old(self).successful_searches },
                failed_searches: if success { old(self).failed_searches } else { bump(old(self).failed_searches) },
                avg_search_latency_ms: ema(old(self).avg_search_latency_ms, total_latency_ms),
                avg_embedding_latency_ms: if embedding_latency_ms > 0 {
                    ema(old(self).avg_embedding_latency_ms, embedding_latency_ms)
                } else {
                    old(self).avg_embedding_latency_ms
                },
                ..*old(self)
            }),
    {
        self.total_searches = bump_exec(self.total_searches);
        if success {
            self.successful_searches = bump_exec(self.successful_searches);
        } else {
            self.failed_searches = bump_exec(self.failed_searches);
        }
        self.avg_search_latency_ms = ema_exec(self.avg_search_latency_ms, total_latency_ms);
        if embedding_latency_ms > 0 {
            self.avg_embedding_latency_ms = ema_exec(self.avg_embedding_latency_ms, embedding_latency_ms);
        }
    }
}


/// An expired entry is always worth less than a live one whose lifetime is under 1000
/// minutes (every lifetime the cache gives is at most an hour), so eviction takes expired
/// entries before any live one.
pub proof fn lemma_expired_worth_least<V>(e: CachedSearchResult<V>, f: CachedSearchResult<V>, now: u64)
    requires
        expired(e, now),
        !expired(f, now),
        f.ttl_ms < 60_000_000,
    ensures
        keep_score(e, now) < keep_score(f, now),
{
    assert(spec_elapsed(now, f.created_at_ms) / 60_000 <= 999) by (nonlinear_arith)
        requires spec_elapsed(now, f.created_at_ms) <= f.ttl_ms, f.ttl_ms < 60_000_000;
}

/// The entry eviction takes first is an expired one whenever the cache holds any, as long as
/// the live entries' lifetimes are under 1000 minutes.
pub proof fn lemma_eviction_takes_expired_first<V>(s: Seq<(String, CachedSearchResult<V>)>, now: u64, i: int)
    requires
        0 <= i < s.len(),
        expired(s[i].1, now),
        forall|j: int| 0 <= j < s.len() ==> (#[trigger] s[j]).1.ttl_ms < 60_000_000,
    ensures
        expired(s[lowest(s, now)].1, now),
{
    lemma_lowest(s, now);
    let k = lowest(s, now);
    if !expired(s[k].1, now) {
        lemma_expired_worth_least(s[i].1, s[k].1, now);
        assert(keep_score(s[k].1, now) <= keep_score(s[i].1, now));
    }
}

/// Every lifetime the cache gives is at most an hour.
pub proof fn lemma_ttl_at_most_an_hour(layer: Layer, result_count: nat)
    ensures
        spec_ttl_secs(layer, result_count) * 1000 <= 3_600_000,
{
}

} // verus!
