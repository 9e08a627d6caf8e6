//! A registry of coordinators with metadata and dependencies.
//!
//! A coordinator is accepted only when every coordinator it depends on is already registered,
//! so the registration order is always an order in which each coordinator comes after its
//! dependencies; it is the initialization order.

use vstd::prelude::*;
use vstd::string::StringExecFns;

pub use crate::orchestration::coordinator_registry::ValidationResult;

verus! {

/// The value of the first tag with key `key`, if any.
pub open spec fn tag_lookup(tags: Seq<(String, String)>, key: Seq<char>) -> Option<Seq<char>>
    decreases tags.len(),
{
    if tags.len() == 0 {
        None
    } else if tags[0].0@ == key {
        Some(tags[0].1@)
    } else {
        tag_lookup(tags.drop_first(), key)
    }
}

proof fn lemma_lookup_first(s: Seq<(String, String)>, i: int, k: Seq<char>)
    requires
        0 <= i < s.len(),
        s[i].0@ == k,
        forall|j: int| 0 <= j < i ==> (#[trigger] s[j]).0@ != k,
    ensures
        tag_lookup(s, k) == Some(s[i].1@),
    decreases i,
{
    if i > 0 {
        assert(s[0].0@ != k);
        assert forall|j: int| 0 <= j < i - 1 implies (#[trigger] s.drop_first()[j]).0@ != k by {
            assert(s.drop_first()[j] == s[j + 1]);
        }
        lemma_lookup_first(s.drop_first(), i - 1, k);
    }
}

proof fn lemma_lookup_absent(s: Seq<(String, String)>, k: Seq<char>)
    requires
        forall|j: int| 0 <= j < s.len() ==> (#[trigger] s[j]).0@ != k,
    ensures
        tag_lookup(s, k) is None,
    decreases s.len(),
{
    if s.len() > 0 {
        assert(s[0].0@ != k);
        assert forall|j: int| 0 <= j < s.len() - 1 implies (#[trigger] s.drop_first()[j]).0@ != k by {
            assert(s.drop_first()[j] == s[j + 1]);
        }
        lemma_lookup_absent(s.drop_first(), k);
    }
}

proof fn lemma_lookup_update(s: Seq<(String, String)>, i: int, p: (String, String), k2: Seq<char>)
    requires
        0 <= i < s.len(),
        s[i].0@ == p.0@,
        forall|j: int| 0 <= j < i ==> (#[trigger] s[j]).0@ != p.0@,
    ensures
        tag_lookup(s.update(i, p), k2) == (if k2 == p.0@ { Some(p.1@) } else { tag_lookup(s, k2) }),
    decreases i,
{
    let s2 = s.update(i, p);
    if i == 0 {
        assert(s2.drop_first() =~= s.drop_first());
    } else {
        assert(s[0].0@ != p.0@);
        assert(s2[0] == s[0]);
        assert(s2.drop_first() =~= s.drop_first().update(i - 1, p));
        assert forall|j: int| 0 <= j < i - 1 implies (#[trigger] s.drop_first()[j]).0@ != p.0@ by {
            assert(s.drop_first()[j] == s[j + 1]);
        }
        lemma_lookup_update(s.drop_first(), i - 1, p, k2);
    }
}

proof fn lemma_lookup_push(s: Seq<(String, String)>, p: (String, String), k2: Seq<char>)
    ensures
        tag_lookup(s.push(p), k2) == (match tag_lookup(s, k2) {
            Some(v) => Some(v),
            None => if p.0@ == k2 { Some(p.1@) } else { None },
        }),
    decreases s.len(),
{
    let s2 = s.push(p);
    if s.len() > 0 {
        assert(s2[0] == s[0]);
        assert(s2.drop_first() =~= s.drop_first().push(p));
        lemma_lookup_push(s.drop_first(), p, k2);
    } else {
        assert(s2[0] == p);
        assert(s2.drop_first() =~= Seq::<(String, String)>::empty());
        assert(tag_lookup(s2.drop_first(), k2) is None);
        assert(tag_lookup(s, k2) is None);
    }
}

/// Metadata of a coordinator: its priority, dependencies, capabilities and tags.
#[derive(Debug)]
pub struct CoordinatorMetadata {
    pub name: String,
    pub priority: u32,
    /// Names of the coordinators this one needs, in the order they were given.
    pub dependencies: Vec<String>,
    pub capabilities: Vec<String>,
    /// Key and value of each tag; a key set twice keeps the later value.
    pub tags: Vec<(String, String)>,
    pub initialization_order: u32,
    pub is_critical: bool,
}

impl CoordinatorMetadata {
    /// Metadata for `name` with priority 100, initialization order 100, no dependencies,
    /// capabilities or tags, and not critical.
    pub fn new(name: String) -> (m: Self)
        ensures
            m.name@ == name@,
            m.priority == 100,
            m.dependencies@.len() == 0,
            m.capabilities@.len() == 0,
            m.tags@.len() == 0,
            m.initialization_order == 100,
            !m.is_critical,
    {
        CoordinatorMetadata {
            name,
            priority: 100,
            dependencies: Vec::new(),
            capabilities: Vec::new(),
            tags: Vec::new(),
            initialization_order: 100,
            is_critical: false,
        }
    }

    /// The same metadata with priority `priority`.
    pub fn with_priority(self, priority: u32) -> (m: Self)
        ensures
            m == (CoordinatorMetadata { priority, ..self }),
    {
        let mut m = self;
        m.priority = priority;
        m
    }

    /// The same metadata with dependencies `deps`.
    pub fn with_dependencies(self, deps: Vec<String>) -> (m: Self)
        ensures
            m == (CoordinatorMetadata { dependencies: deps, ..self }),
    {
        let mut m = self;
        m.dependencies = deps;
        m
    }

    /// The same metadata with `dep` added at the end of the dependencies.
    pub fn add_dependency(self, dep: String) -> (m: Self)
        ensures
            m.dependencies@ == self.dependencies@.push(dep),
            m == (CoordinatorMetadata { dependencies: m.dependencies, ..self }),
    {
        let mut m = self;
        m.dependencies.push(dep);
        m
    }

    /// The same metadata with capabilities `caps`.
    pub fn with_capabilities(self, caps: Vec<String>) -> (m: Self)
        ensures
            m == (CoordinatorMetadata { capabilities: caps, ..self }),
    {
        let mut m = self;
        m.capabilities = caps;
        m
    }

    /// The same metadata with `cap` added at the end of the capabilities.
    pub fn add_capability(self, cap: String) -> (m: Self)
        ensures
            m.capabilities@ == self.capabilities@.push(cap),
            m == (CoordinatorMetadata { capabilities: m.capabilities, ..self }),
    {
        let mut m = self;
        m.capabilities.push(cap);
        m
    }

    /// The same metadata with tag `key` set to `value`; the tags of other keys are kept.
    pub fn with_tag(self, key: String, value: String) -> (m: Self)
        ensures
            tag_lookup(m.tags@, key@) == Some(value@),
            forall|k: Seq<char>| k != key@ ==> #[trigger] tag_lookup(m.tags@, k) == tag_lookup(self.tags@, k),
            m == (CoordinatorMetadata { tags: m.tags, ..self }),
    {
        let ghost orig = self;
        let mut m = self;
        let ghost old_tags = m.tags@;
        let mut i: usize = 0;
        while i < m.tags.len()
            invariant
                i <= m.tags@.len(),
                m == orig,
                orig == self,
                old_tags == orig.tags@,
                forall|j: int| 0 <= j < i ==> (#[trigger] m.tags@[j]).0@ != key@,
            decreases m.tags@.len() - i,
        {
            if m.tags[i].0 == key {
                let pair = (key, value);
                proof {
                    assert forall|k2: Seq<char>| #[trigger] tag_lookup(old_tags.update(i as int, pair), k2)
                        == (if k2 == pair.0@ { Some(pair.1@) } else { tag_lookup(old_tags, k2) }) by {
                        lemma_lookup_update(old_tags, i as int, pair, k2);
                    }
                }
                m.tags.set(i, pair);
                return m;
            }
            i = i + 1;
        }
        let pair = (key, value);
        proof {
            lemma_lookup_absent(old_tags, pair.0@);
            assert forall|k2: Seq<char>| #[trigger] tag_lookup(old_tags.push(pair), k2)
                == (match tag_lookup(old_tags, k2) {
                    Some(v) => Some(v),
                    None => if pair.0@ == k2 { Some(pair.1@) } else { None },
                }) by {
                lemma_lookup_push(old_tags, pair, k2);
            }
        }
        m.tags.push(pair);
        m
    }

    /// The same metadata with initialization order `order`.
    pub fn with_initialization_order(self, order: u32) -> (m: Self)
        ensures
            m == (CoordinatorMetadata { initialization_order: order, ..self }),
    {
        let mut m = self;
        m.initialization_order = order;
        m
    }

    /// The same metadata, marked critical.
    pub fn as_critical(self) -> (m: Self)
        ensures
            m == (CoordinatorMetadata { is_critical: true, ..self }),
    {
        let mut m = self;
        m.is_critical = true;
        m
    }
}

/// Outcome of a registration.
#[derive(Debug, Clone, Copy, PartialEq, Eq, Structural)]
pub enum RegistrationStatus {
    Registered,
    DependenciesNotMet,
    CircularDependency,
    Duplicate,
}

/// Result of a registration: its outcome, a message, and the dependencies that were missing.
#[derive(Debug)]
pub struct RegistrationResult {
    pub status: RegistrationStatus,
    pub message: String,
    pub missing_dependencies: Vec<String>,
}

/// A registered coordinator with its metadata.
#[derive(Debug)]
pub struct CoordinatorEntry<C> {
    pub coordinator: C,
    pub metadata: CoordinatorMetadata,
    /// When it was registered (milliseconds).
    pub registration_time_ms: u64,
    pub is_active: bool,
}

/// Whether a coordinator named `name` is registered.
pub open spec fn is_registered<C>(s: Seq<CoordinatorEntry<C>>, name: Seq<char>) -> bool {
    exists|k: int| 0 <= k < s.len() && (#[trigger] s[k]).metadata.name@ == name
}

/// Every dependency of the entry at `k` is the name of an entry registered before it.
pub open spec fn deps_registered_before<C>(s: Seq<CoordinatorEntry<C>>, k: int) -> bool {
    forall|d: int| 0 <= d < s[k].metadata.dependencies@.len() ==>
        is_registered(s.take(k), (#[trigger] s[k].metadata.dependencies@[d])@)
}

/// The dependencies among `deps` that are not registered, in order.
pub open spec fn missing_among<C>(s: Seq<CoordinatorEntry<C>>, deps: Seq<String>) -> Seq<Seq<char>> {
    deps.filter(|d: String| !is_registered(s, d@)).map_values(|d: String| d@)
}

proof fn lemma_no_missing<C>(s: Seq<CoordinatorEntry<C>>, deps: Seq<String>)
    requires
        missing_among(s, deps).len() == 0,
    ensures
        forall|d: int| 0 <= d < deps.len() ==> is_registered(s, (#[trigger] deps[d])@),
{
    let pred = |d: String| !is_registered(s, d@);
    assert forall|d: int| 0 <= d < deps.len() implies is_registered(s, (#[trigger] deps[d])@) by {
        if !is_registered(s, deps[d]@) {
            deps.lemma_filter_contains(pred, d);
            assert(deps.filter(pred).len() > 0);
        }
    }
}

/// Registry of coordinators with their dependencies. The registration order is the
/// initialization order.
pub struct CoordinatorRegistry<C> {
    entries: Vec<CoordinatorEntry<C>>,
}

impl<C> CoordinatorRegistry<C> {
    /// The entries, in registration order.
    pub closed spec fn entries_view(&self) -> Seq<CoordinatorEntry<C>> {
        self.entries@
    }

    /// Names are distinct and each coordinator was registered after all it depends on.
    pub open spec fn wf(&self) -> bool {
        let s = self.entries_view();
        &&& forall|a: int, b: int| 0 <= a < s.len() && 0 <= b < s.len() && a != b
            ==> (#[trigger] s[a]).metadata.name@ != (#[trigger] s[b]).metadata.name@
        &&& forall|k: int| 0 <= k < s.len() ==> #[trigger] deps_registered_before(s, k)
    }

    /// An empty registry.
    pub fn new() -> (r: Self)
        ensures
            r.wf(),
            r.entries_view().len() == 0,
    {
        CoordinatorRegistry { entries: Vec::new() }
    }

    fn find(&self, name: &String) -> (r: Option<usize>)
        ensures
            match r {
                Some(i) => i < self.entries@.len() && self.entries@[i as int].metadata.name@ == name@,
                None => !is_registered(self.entries@, name@),
            },
    {
        let mut i: usize = 0;
        while i < self.entries.len()
            invariant
                i <= self.entries@.len(),
                forall|k: int| 0 <= k < i ==> (#[trigger] self.entries@[k]).metadata.name@ != name@,
            decreases self.entries@.len() - i,
        {
            if self.entries[i].metadata.name == *name {
                return Some(i);
            }
            i = i + 1;
        }
        None
    }

    /// The dependencies among `deps` that are not registered, in order.
    pub fn check_dependencies(&self, deps: &Vec<String>) -> (missing: Vec<String>)
        ensures
            missing@.map_values(|d: String| d@) == missing_among(self.entries_view(), deps@),
    {
        let ghost s = self.entries@;
        let ghost pred = |d: String| !is_registered(s, d@);
        let mut missing: Vec<String> = Vec::new();
        let mut i: usize = 0;
        while i < deps.len()
            invariant
                i <= deps@.len(),
                s == self.entries@,
                pred == (|d: String| !is_registered(s, d@)),
                missing@.map_values(|d: String| d@) == deps@.take(i as int).filter(pred).map_values(|d: String| d@),
            decreases deps@.len() - i,
        {
            let ghost old_missing = missing@;
            proof {
                assert(deps@.take(i + 1) =~= deps@.take(i as int).push(deps@[i as int]));
                deps@.take(i as int).lemma_filter_push(deps@[i as int], pred);
            }
            let found = self.find(&deps[i]);
            if found.is_none() {
                missing.push(deps[i].clone());
                proof {
                    let ft = deps@.take(i as int).filter(pred);
                    assert(missing@.map_values(|d: String| d@) =~= old_missing.map_values(|d: String| d@).push(deps@[i as int]@));
                    assert(ft.push(deps@[i as int]).map_values(|d: String| d@) =~= ft.map_values(|d: String| d@).push(deps@[i as int]@));
                }
            }
            i = i + 1;
        }
        proof { assert(deps@.take(deps@.len() as int) =~= deps@); }
        missing
    }

    /// Registers `coordinator` with `metadata` at time `now_ms`. A name already registered is
    /// refused as a duplicate; a coordinator whose dependencies are not all registered is
    /// refused with the missing ones; otherwise it is added, active, at the end of the
    /// initialization order. A refused registration changes nothing.
    pub fn register_coordinator(&mut self, coordinator: C, metadata: CoordinatorMetadata, now_ms: u64) -> (r: RegistrationResult)
        requires
            old(self).wf(),
        ensures
            final(self).wf(),
            r.status != RegistrationStatus::CircularDependency,
            is_registered(old(self).entries_view(), metadata.name@) ==> {
                &&& r.status == RegistrationStatus::Duplicate
                &&& r.message@ == "Координатор '"@ + metadata.name@ + "' уже зарегистрирован"@
                &&& r.missing_dependencies@.len() == 0
                &&& final(self).entries_view() == old(self).entries_view()
            },
            !is_registered(old(self).entries_view(), metadata.name@)
                && missing_among(old(self).entries_view(), metadata.dependencies@).len() > 0 ==> {
                &&& r.status == RegistrationStatus::DependenciesNotMet
                &&& r.message@ == "Не все зависимости доступны для '"@ + metadata.name@ + "'"@
                &&& r.missing_dependencies@.map_values(|d: String| d@) == missing_among(old(self).entries_view(), metadata.dependencies@)
                &&& final(self).entries_view() == old(self).entries_view()
            },
            !is_registered(old(self).entries_view(), metadata.name@)
                && missing_among(old(self).entries_view(), metadata.dependencies@).len() == 0 ==> {
                &&& r.status == RegistrationStatus::Registered
                &&& r.message@ == "Координатор '"@ + metadata.name@ + "' успешно зарегистрирован"@
                &&& r.missing_dependencies@.len() == 0
                &&& final(self).entries_view() == old(self).entries_view().push(CoordinatorEntry {
                    coordinator,
                    metadata,
                    registration_time_ms: now_ms,
                    is_active: true,
                })
            },
    {
        if self.find(&metadata.name).is_some() {
            let mut message = String::new();
            message.append("Координатор '");
            message.append(metadata.name.as_str());
            message.append("' уже зарегистрирован");
            return RegistrationResult { status: RegistrationStatus::Duplicate, message, missing_dependencies: Vec::new() };
        }
        let missing = self.check_dependencies(&metadata.dependencies);
        if missing.len() > 0 {
            let mut message = String::new();
            message.append("Не все зависимости доступны для '");
            message.append(metadata.name.as_str());
            message.append("'");
            return RegistrationResult { status: RegistrationStatus::DependenciesNotMet, message, missing_dependencies: missing };
        }
        let mut message = String::new();
        message.append("Координатор '");
        message.append(metadata.name.as_str());
        message.append("' успешно зарегистрирован");
        let ghost s = self.entries@;
        let ghost deps = metadata.dependencies@;
        proof {
            lemma_no_missing(s, deps);
        }
        self.entries.push(CoordinatorEntry { coordinator, metadata, registration_time_ms: now_ms, is_active: true });
        proof {
            let s2 = self.entries@;
            let last = s.len() as int;
            assert forall|k: int| 0 <= k < s2.len() implies #[trigger] deps_registered_before(s2, k) by {
                if k < last {
                    assert(deps_registered_before(s, k));
                    assert(s2[k] == s[k]);
                    assert(s2.take(k) =~= s.take(k));
                } else {
                    assert(s2[k].metadata.dependencies@ == deps);
                    assert(s2.take(k) =~= s);
                }
            }
            assert forall|a: int, b: int| 0 <= a < s2.len() && 0 <= b < s2.len() && a != b
                implies (#[trigger] s2[a]).metadata.name@ != (#[trigger] s2[b]).metadata.name@ by {
                if a < last && b < last {
                    assert(s[a].metadata.name@ != s[b].metadata.name@);
                } else if a < last {
                    assert(s2[a] == s[a]);
                } else {
                    assert(s2[b] == s[b]);
                }
            }
        }
        RegistrationResult { status: RegistrationStatus::Registered, message, missing_dependencies: Vec::new() }
    }

    /// The coordinator registered under `name`, if any.
    pub fn get_coordinator(&self, name: &str) -> (r: Option<&C>)
        ensures
            r is None <==> !is_registered(self.entries_view(), name@),
            r matches Some(c) ==> exists|k: int| 0 <= k < self.entries_view().len()
                && (#[trigger] self.entries_view()[k]).metadata.name@ == name@ && self.entries_view()[k].coordinator == *c,
    {
        let key = name.to_owned();
        match self.find(&key) {
            Some(i) => {
                let c = &self.entries[i].coordinator;
                assert(self.entries_view()[i as int].metadata.name@ == name@ && self.entries_view()[i as int].coordinator == *c);
                Some(c)
            },
            None => None,
        }
    }

    /// Every coordinator with its name, in initialization order; each comes after all the
    /// coordinators it depends on.
    pub fn get_initialization_order(&self) -> (r: Vec<(String, &C)>)
        ensures
            r@.len() == self.entries_view().len(),
            forall|k: int| 0 <= k < r@.len() ==> (#[trigger] r@[k]).0@ == self.entries_view()[k].metadata.name@
                && *r@[k].1 == self.entries_view()[k].coordinator,
    {
        let mut out: Vec<(String, &C)> = Vec::new();
        let mut i: usize = 0;
        while i < self.entries.len()
            invariant
                i <= self.entries@.len(),
                out@.len() == i,
                forall|k: int| 0 <= k < i ==> (#[trigger] out@[k]).0@ == self.entries@[k].metadata.name@
                    && *out@[k].1 == self.entries@[k].coordinator,
            decreases self.entries@.len() - i,
        {
            let e = &self.entries[i];
            out.push((e.metadata.name.clone(), &e.coordinator));
            i = i + 1;
        }
        out
    }

    /// Every coordinator's name with whether it is critical, in initialization order.
    pub fn initialization_plan(&self) -> (r: Vec<(String, bool)>)
        ensures
            r@.len() == self.entries_view().len(),
            forall|k: int| 0 <= k < r@.len() ==> (#[trigger] r@[k]).0@ == self.entries_view()[k].metadata.name@
                && r@[k].1 == self.entries_view()[k].metadata.is_critical,
    {
        let mut out: Vec<(String, bool)> = Vec::new();
        let mut i: usize = 0;
        while i < self.entries.len()
            invariant
                i <= self.entries@.len(),
                out@.len() == i,
                forall|k: int| 0 <= k < i ==> (#[trigger] out@[k]).0@ == self.entries@[k].metadata.name@
                    && out@[k].1 == self.entries@[k].metadata.is_critical,
            decreases self.entries@.len() - i,
        {
            let e = &self.entries[i];
            out.push((e.metadata.name.as_str().to_owned(), e.metadata.is_critical));
            i = i + 1;
        }
        out
    }

    /// Every coordinator with its name, in registration order.
    pub fn get_all_coordinators(&self) -> (r: Vec<(String, &C)>)
        ensures
            r@.len() == self.entries_view().len(),
            forall|k: int| 0 <= k < r@.len() ==> (#[trigger] r@[k]).0@ == self.entries_view()[k].metadata.name@
                && *r@[k].1 == self.entries_view()[k].coordinator,
    {
        self.get_initialization_order()
    }
}

/// In a well-formed registry, every dependency of a coordinator is registered, earlier in
/// the initialization order than the coordinator itself.
pub proof fn lemma_dependencies_come_first<C>(reg: &CoordinatorRegistry<C>, k: int, d: int)
    requires
        reg.wf(),
        0 <= k < reg.entries_view().len(),
        0 <= d < reg.entries_view()[k].metadata.dependencies@.len(),
    ensures
        exists|j: int| 0 <= j < k && (#[trigger] reg.entries_view()[j]).metadata.name@
            == reg.entries_view()[k].metadata.dependencies@[d]@,
{
    let s = reg.entries_view();
    assert(deps_registered_before(s, k));
    let dep = s[k].metadata.dependencies@[d];
    assert(is_registered(s.take(k), dep@));
    let j = choose|j: int| 0 <= j < s.take(k).len() && (#[trigger] s.take(k)[j]).metadata.name@ == dep@;
    assert(s.take(k)[j] == s[j]);
}

} // verus!
