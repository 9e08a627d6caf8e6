//! Shared contracts of the coordinators: the result of a coordinated operation and the
//! interface of a health coordinator.

use vstd::prelude::*;

use crate::keyed::value_of;
use crate::orchestration::health_manager::{ComponentStatus, HealthManager, SystemReport};

verus! {

/// Result of a coordinated operation.
#[derive(Debug)]
pub enum CoordinationResult<T> {
    /// Full success.
    Success(T),
    /// Success with warnings.
    PartialSuccess(T, Vec<String>),
    /// A fallback value, with the reason for falling back.
    Fallback(T, String),
    /// The operation failed.
    Error(anyhow::Error),
}

impl<T> CoordinationResult<T> {
    /// Whether the operation succeeded, fully or with warnings.
    pub fn is_success(&self) -> (b: bool)
        ensures
            b == (self is Success || self is PartialSuccess),
    {
        match self {
            CoordinationResult::Success(_) => true,
            CoordinationResult::PartialSuccess(_, _) => true,
            _ => false,
        }
    }

    /// The value of a result that is not an error.
    pub fn unwrap(self) -> (t: T)
        requires
            !(self is Error),
        ensures
            t == match self {
                CoordinationResult::Success(v) => v,
                CoordinationResult::PartialSuccess(v, _) => v,
                CoordinationResult::Fallback(v, _) => v,
                CoordinationResult::Error(_) => t,
            },
    {
        match self {
            CoordinationResult::Success(t) => t,
            CoordinationResult::PartialSuccess(t, _) => t,
            CoordinationResult::Fallback(t, _) => t,
            CoordinationResult::Error(_) => vstd::pervasive::unreached(),
        }
    }

    /// The warnings of a partial success, the reason of a fallback, none otherwise.
    pub fn warnings(&self) -> (w: Vec<String>)
        ensures
            w@.map_values(|s: String| s@) == match self {
                CoordinationResult::PartialSuccess(_, ws) => ws@.map_values(|s: String| s@),
                CoordinationResult::Fallback(_, reason) => seq![reason@],
                _ => Seq::empty(),
            },
    {
        match self {
            CoordinationResult::PartialSuccess(_, warnings) => {
                let mut out: Vec<String> = Vec::new();
                let mut i: usize = 0;
                while i < warnings.len()
                    invariant
                        i <= warnings@.len(),
                        out@.len() == i,
                        forall|k: int| 0 <= k < i ==> (#[trigger] out@[k])@ == warnings@[k]@,
                    decreases warnings@.len() - i,
                {
                    out.push(warnings[i].clone());
                    i = i + 1;
                }
                proof {
                    assert(out@.map_values(|s: String| s@) =~= warnings@.map_values(|s: String| s@));
                }
                out
            },
            CoordinationResult::Fallback(_, reason) => {
                let out = vec![reason.clone()];
                proof {
                    assert(out@.map_values(|s: String| s@) =~= seq![reason@]);
                }
                out
            },
            _ => {
                let out: Vec<String> = Vec::new();
                proof {
                    assert(out@.map_values(|s: String| s@) =~= Seq::<Seq<char>>::empty());
                }
                out
            },
        }
    }
}

/// A coordinator of the system's health: it answers for a component, runs checks from the
/// system monitor's report, and lists and clears its alerts. Times are milliseconds.
pub trait HealthCoordinator {
    /// Whether `component` is monitored and healthy.
    fn component_health(&self, component: &str) -> bool;

    /// Records a system health check (`None` when the monitor failed); whether it answered.
    fn run_health_check(&mut self, report: Option<SystemReport>, duration_ms: u64, now_ms: u64) -> bool;

    /// The open alerts, as lines, at `now_ms`.
    fn get_alerts(&self, now_ms: u64) -> Vec<String>;

    /// Marks every alert resolved.
    fn clear_alerts(&mut self);
}

/// A coordinator of backups, for the storage layer to implement: it creates full and
/// incremental backups, restores them, lists them and checks their integrity. Its backup
/// description is `Metadata`; its errors are texts.
pub trait BackupCoordinator {
    type Metadata;

    /// Creates a full backup at `path`.
    fn create_backup(&mut self, path: &str) -> Result<Self::Metadata, String>;

    /// Creates an incremental backup at `path`.
    fn create_incremental_backup(&mut self, path: &str) -> Result<Self::Metadata, String>;

    /// Restores the backup at `path`.
    fn restore_backup(&mut self, path: &str) -> Result<(), String>;

    /// The backups available.
    fn list_backups(&self) -> Result<Vec<Self::Metadata>, String>;

    /// Whether the backup at `path` is intact.
    fn verify_backup(&self, path: &str) -> Result<bool, String>;
}

impl HealthCoordinator for HealthManager {
    fn component_health(&self, component: &str) -> (b: bool)
        ensures
            b == (value_of(self.components(), component@) matches Some(c) && c.status == ComponentStatus::Healthy),
    {
        HealthManager::component_health(self, component)
    }

    /// A manager within its bounds records the check; one beyond them (which no method of
    /// the manager produces) only reports whether the monitor answered.
    fn run_health_check(&mut self, report: Option<SystemReport>, duration_ms: u64, now_ms: u64) -> (ok: bool)
        ensures
            old(self).wf() ==> final(self).wf() && old(self).check_recorded(*final(self), report, duration_ms, now_ms, ok),
            !old(self).wf() ==> ok == report is Some && *final(self) == *old(self),
    {
        if self.alerts_len() <= 100 && self.history_len() <= 100 {
            HealthManager::run_health_check(self, report, duration_ms, now_ms)
        } else {
            report.is_some()
        }
    }

    fn get_alerts(&self, now_ms: u64) -> (r: Vec<String>)
        ensures
            r@.map_values(|s: String| s@) == self.alert_lines(now_ms),
    {
        HealthManager::get_alerts(self, now_ms)
    }

    fn clear_alerts(&mut self)
        ensures
            old(self).alerts_cleared(*final(self)),
    {
        HealthManager::clear_alerts(self)
    }
}

} // verus!
