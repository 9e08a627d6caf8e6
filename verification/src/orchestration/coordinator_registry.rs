//! The fixed set of coordinators of the orchestrator, and what the registry concludes from
//! their readiness reports.
//!
//! Asking each coordinator whether it is ready is asynchronous and happens outside this
//! library; the functions here take the answers, `(name, ready)` in coordinator order.

use vstd::prelude::*;

use crate::orchestration::lifecycle_manager::failed_components;

verus! {

/// Names of all coordinators, in the order the registry lists them.
pub open spec fn all_coordinator_names() -> Seq<Seq<char>> {
    seq!["embedding"@, "search"@, "health"@, "promotion"@, "resources"@, "backup"@]
}

/// Names of the critical coordinators, initialized first.
pub open spec fn critical_coordinator_names() -> Seq<Seq<char>> {
    seq!["resources"@, "health"@]
}

/// Names of the core coordinators.
pub open spec fn core_coordinator_names() -> Seq<Seq<char>> {
    seq!["embedding"@, "search"@]
}

/// Names of the background coordinators.
pub open spec fn background_coordinator_names() -> Seq<Seq<char>> {
    seq!["promotion"@, "backup"@]
}

/// Turns literals into owned strings, keeping their text.
fn owned_names(names: Vec<&'static str>) -> (r: Vec<String>)
    ensures
        r@.map_values(|s: String| s@) == names@.map_values(|s: &str| s@),
{
    let mut out: Vec<String> = Vec::new();
    let mut i: usize = 0;
    while i < names.len()
        invariant
            i <= names@.len(),
            out@.len() == i,
            forall|k: int| 0 <= k < i ==> (#[trigger] out@[k])@ == names@[k]@,
        decreases names@.len() - i,
    {
        out.push(names[i].to_owned());
        i = i + 1;
    }
    assert(out@.map_values(|s: String| s@) =~= names@.map_values(|s: &str| s@));
    out
}

/// The names of all coordinators.
pub fn list_coordinator_names() -> (r: Vec<String>)
    ensures
        r@.map_values(|s: String| s@) == all_coordinator_names(),
{
    let v = vec!["embedding", "search", "health", "promotion", "resources", "backup"];
    assert(v@.map_values(|s: &str| s@) =~= all_coordinator_names());
    owned_names(v)
}

/// The names of the critical coordinators.
pub fn critical_coordinators() -> (r: Vec<String>)
    ensures
        r@.map_values(|s: String| s@) == critical_coordinator_names(),
{
    let v = vec!["resources", "health"];
    assert(v@.map_values(|s: &str| s@) =~= critical_coordinator_names());
    owned_names(v)
}

/// The names of the core coordinators.
pub fn core_coordinators() -> (r: Vec<String>)
    ensures
        r@.map_values(|s: String| s@) == core_coordinator_names(),
{
    let v = vec!["embedding", "search"];
    assert(v@.map_values(|s: &str| s@) =~= core_coordinator_names());
    owned_names(v)
}

/// The names of the background coordinators.
pub fn background_coordinators() -> (r: Vec<String>)
    ensures
        r@.map_values(|s: String| s@) == background_coordinator_names(),
{
    let v = vec!["promotion", "backup"];
    assert(v@.map_values(|s: &str| s@) =~= background_coordinator_names());
    owned_names(v)
}

/// Whether `name` is one of the coordinators the registry knows.
pub fn is_known_coordinator(name: &str) -> (r: bool)
    ensures
        r == all_coordinator_names().contains(name@),
{
    let names = list_coordinator_names();
    let key = name.to_owned();
    let ghost views = names@.map_values(|s: String| s@);
    let mut i: usize = 0;
    while i < names.len()
        invariant
            i <= names@.len(),
            key@ == name@,
            views == names@.map_values(|s: String| s@),
            views == all_coordinator_names(),
            forall|k: int| 0 <= k < i ==> views[k] != name@,
        decreases names@.len() - i,
    {
        if names[i] == key {
            assert(views[i as int] == name@);
            return true;
        }
        i = i + 1;
    }
    assert forall|k: int| 0 <= k < views.len() implies views[k] != name@ by {}
    false
}

/// Readiness of the coordinators, as the registry reports it.
#[derive(Debug)]
pub struct ReadinessStatus {
    pub all_ready: bool,
    /// Each coordinator with its readiness, in coordinator order.
    pub coordinator_status: Vec<(String, bool)>,
    pub not_ready_coordinators: Vec<String>,
    pub ready_count: usize,
    pub total_count: usize,
}

/// How many of the reports say ready.
pub open spec fn ready_reports(results: Seq<(String, bool)>) -> nat {
    results.filter(|x: (String, bool)| x.1).len()
}

/// `(name, ready)` pairs with the strings taken by content.
pub open spec fn report_view(results: Seq<(String, bool)>) -> Seq<(Seq<char>, bool)> {
    results.map_values(|x: (String, bool)| (x.0@, x.1))
}

/// Names of the reports that say not ready, in order.
pub open spec fn not_ready_names(results: Seq<(String, bool)>) -> Seq<Seq<char>> {
    results.filter(|x: (String, bool)| !x.1).map_values(|x: (String, bool)| x.0@)
}

/// Copies a list of reports.
fn copy_reports(results: &Vec<(String, bool)>) -> (r: Vec<(String, bool)>)
    ensures
        report_view(r@) == report_view(results@),
{
    let mut out: Vec<(String, bool)> = Vec::new();
    let mut i: usize = 0;
    while i < results.len()
        invariant
            i <= results@.len(),
            out@.len() == i,
            forall|k: int| 0 <= k < i ==> (#[trigger] out@[k]).0@ == results@[k].0@ && out@[k].1 == results@[k].1,
        decreases results@.len() - i,
    {
        let name = results[i].0.clone();
        out.push((name, results[i].1));
        i = i + 1;
    }
    assert(report_view(out@) =~= report_view(results@));
    out
}

/// How many reports say ready.
fn count_ready(results: &Vec<(String, bool)>) -> (n: usize)
    ensures
        n == ready_reports(results@),
{
    let mut n: usize = 0;
    let mut i: usize = 0;
    while i < results.len()
        invariant
            i <= results@.len(),
            n == results@.take(i as int).filter(|x: (String, bool)| x.1).len(),
            n <= i,
        decreases results@.len() - i,
    {
        proof {
            assert(results@.take(i + 1) =~= results@.take(i as int).push(results@[i as int]));
            results@.take(i as int).lemma_filter_push(results@[i as int], |x: (String, bool)| x.1);
        }
        if results[i].1 {
            n = n + 1;
        }
        i = i + 1;
    }
    assert(results@.take(results@.len() as int) =~= results@);
    n
}

impl ReadinessStatus {
    /// The status made from the readiness reports of the coordinators: all are ready when
    /// every report says ready.
    pub fn from_results(results: &Vec<(String, bool)>) -> (s: Self)
        ensures
            report_view(s.coordinator_status@) == report_view(results@),
            s.not_ready_coordinators@.map_values(|n: String| n@) == not_ready_names(results@),
            s.ready_count == ready_reports(results@),
            s.total_count == results@.len(),
            s.all_ready == (ready_reports(results@) == results@.len()),
    {
        let ready_count = count_ready(results);
        let total_count = results.len();
        ReadinessStatus {
            all_ready: ready_count == total_count,
            coordinator_status: copy_reports(results),
            not_ready_coordinators: failed_components(results),
            ready_count,
            total_count,
        }
    }
}

/// Whether every report says ready.
pub fn verify_all_ready(results: &Vec<(String, bool)>) -> (r: bool)
    ensures
        r == (forall|k: int| 0 <= k < results@.len() ==> (#[trigger] results@[k]).1),
{
    let mut i: usize = 0;
    while i < results.len()
        invariant
            i <= results@.len(),
            forall|k: int| 0 <= k < i ==> (#[trigger] results@[k]).1,
        decreases results@.len() - i,
    {
        if !results[i].1 {
            return false;
        }
        i = i + 1;
    }
    true
}

/// Result of validating a registry.
#[derive(Debug)]
pub struct ValidationResult {
    pub is_valid: bool,
    pub missing_coordinators: Vec<String>,
    pub readiness_status: ReadinessStatus,
    pub total_coordinators: usize,
}

/// Builds registries and checks them.
pub struct CoordinatorRegistryFactory;

/// Whether `names` holds `name` (by content).
pub open spec fn names_contain(names: Seq<String>, name: Seq<char>) -> bool {
    exists|k: int| 0 <= k < names.len() && (#[trigger] names[k])@ == name
}

fn contains_name(names: &Vec<String>, name: &str) -> (r: bool)
    ensures
        r == names_contain(names@, name@),
{
    let key = name.to_owned();
    let mut i: usize = 0;
    while i < names.len()
        invariant
            i <= names@.len(),
            key@ == name@,
            forall|k: int| 0 <= k < i ==> (#[trigger] names@[k])@ != name@,
        decreases names@.len() - i,
    {
        if names[i] == key {
            return true;
        }
        i = i + 1;
    }
    false
}

impl CoordinatorRegistryFactory {
    /// Validates a registry that lists `coordinator_names` and reported `readiness_status`:
    /// the expected coordinators that are not listed are missing, in the expected order, and
    /// the registry is valid when none is.
    pub fn validate_registry(coordinator_names: &Vec<String>, readiness_status: ReadinessStatus) -> (v: ValidationResult)
        ensures
            v.missing_coordinators@.map_values(|s: String| s@)
                == all_coordinator_names().filter(|n: Seq<char>| !names_contain(coordinator_names@, n)),
            v.is_valid == (v.missing_coordinators@.len() == 0),
            v.total_coordinators == coordinator_names@.len(),
            v.readiness_status == readiness_status,
    {
        let expected = list_coordinator_names();
        let ghost pred = |n: Seq<char>| !names_contain(coordinator_names@, n);
        let mut missing: Vec<String> = Vec::new();
        let mut i: usize = 0;
        while i < expected.len()
            invariant
                i <= expected@.len(),
                expected@.map_values(|s: String| s@) == all_coordinator_names(),
                pred == (|n: Seq<char>| !names_contain(coordinator_names@, n)),
                missing@.map_values(|s: String| s@) == all_coordinator_names().take(i as int).filter(pred),
            decreases expected@.len() - i,
        {
            let ghost old_missing = missing@;
            let ghost all = all_coordinator_names();
            proof {
                assert(expected@[i as int]@ == all[i as int]);
                assert(all.take(i + 1) =~= all.take(i as int).push(all[i as int]));
                all.take(i as int).lemma_filter_push(all[i as int], pred);
            }
            if !contains_name(coordinator_names, expected[i].as_str()) {
                missing.push(expected[i].clone());
                proof {
                    assert(missing@.map_values(|s: String| s@) =~= old_missing.map_values(|s: String| s@).push(all[i as int]));
                }
            }
            i = i + 1;
        }
        proof {
            assert(all_coordinator_names().take(6) =~= all_coordinator_names());
        }
        let is_valid = missing.len() == 0;
        ValidationResult {
            is_valid,
            missing_coordinators: missing,
            readiness_status,
            total_coordinators: coordinator_names.len(),
        }
    }
}

} // verus!
