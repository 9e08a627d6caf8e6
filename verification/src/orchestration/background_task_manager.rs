//! The manager of the orchestrator's background tasks: whether it runs, whether a shutdown was
//! asked for, and how many tasks it has started.
//!
//! Spawning, aborting and awaiting the tasks happen outside this library; the manager here
//! decides what a request does and records it.

use vstd::prelude::*;
use vstd::string::StringExecFns;

verus! {

/// The standard tasks started together: health monitoring, circuit-breaker monitoring and
/// metrics collection.
pub const STANDARD_TASKS: usize = 3;

/// What a request to start the standard tasks did.
#[derive(Debug, Clone, Copy, PartialEq, Eq, Structural)]
pub enum StartOutcome {
    /// The tasks were already running; nothing was started.
    AlreadyRunning,
    /// The standard tasks were started.
    Started,
}

/// State of the background task manager.
#[derive(Debug)]
pub struct BackgroundTaskManager {
    active: bool,
    shutdown_requested: bool,
    tasks: usize,
}

/// The message of a refused custom task.
pub open spec fn spec_inactive_message(name: Seq<char>) -> Seq<char> {
    "Background task manager не активен, нельзя добавить задачу '"@ + name + "'"@
}

impl BackgroundTaskManager {
    /// Whether the manager runs.
    pub closed spec fn active(&self) -> bool {
        self.active
    }

    /// Whether a shutdown was asked for.
    pub closed spec fn shutdown_requested(&self) -> bool {
        self.shutdown_requested
    }

    /// How many tasks the manager holds.
    pub closed spec fn task_count(&self) -> usize {
        self.tasks
    }

    /// A manager that runs nothing.
    pub fn new() -> (m: Self)
        ensures
            !m.active(),
            !m.shutdown_requested(),
            m.task_count() == 0,
    {
        BackgroundTaskManager { active: false, shutdown_requested: false, tasks: 0 }
    }

    /// Starts the standard tasks, unless they already run.
    pub fn start_all_tasks(&mut self) -> (o: StartOutcome)
        requires
            old(self).task_count() + STANDARD_TASKS <= usize::MAX,
        ensures
            old(self).active() ==> o == StartOutcome::AlreadyRunning && final(self).active() == old(self).active()
                && final(self).task_count() == old(self).task_count(),
            !old(self).active() ==> o == StartOutcome::Started && final(self).active()
                && final(self).task_count() == old(self).task_count() + STANDARD_TASKS,
            final(self).shutdown_requested() == old(self).shutdown_requested(),
    {
        if self.active {
            return StartOutcome::AlreadyRunning;
        }
        self.tasks = self.tasks + STANDARD_TASKS;
        self.active = true;
        StartOutcome::Started
    }

    /// Asks every task to stop and lets go of them.
    pub fn stop_all_tasks(&mut self)
        ensures
            final(self).shutdown_requested(),
            !final(self).active(),
            final(self).task_count() == 0,
    {
        self.shutdown_requested = true;
        self.active = false;
        self.tasks = 0;
    }

    /// Whether the manager runs.
    pub fn is_active(&self) -> (r: bool)
        ensures
            r == self.active(),
    {
        self.active
    }

    /// How many tasks the manager holds.
    pub fn registered_tasks(&self) -> (n: usize)
        ensures
            n == self.task_count(),
    {
        self.tasks
    }

    /// Adds a custom task named `name`; refused while the manager does not run.
    pub fn add_custom_task(&mut self, name: &str) -> (r: Result<(), String>)
        requires
            old(self).task_count() < usize::MAX,
        ensures
            old(self).active() ==> r is Ok && final(self).task_count() == old(self).task_count() + 1,
            !old(self).active() ==> (r matches Err(m) && m@ == spec_inactive_message(name@))
                && final(self).task_count() == old(self).task_count(),
            final(self).active() == old(self).active(),
            final(self).shutdown_requested() == old(self).shutdown_requested(),
    {
        if !self.active {
            let mut m = String::from_str("Background task manager не активен, нельзя добавить задачу '");
            m.append(name);
            m.append("'");
            return Err(m);
        }
        self.tasks = self.tasks + 1;
        Ok(())
    }

    /// Initializing the coordinator marks the manager as running.
    pub fn initialize(&mut self)
        ensures
            final(self).active(),
            final(self).shutdown_requested() == old(self).shutdown_requested(),
            final(self).task_count() == old(self).task_count(),
    {
        self.active = true;
    }

    /// Ready while it runs and no shutdown was asked for.
    pub fn is_ready(&self) -> (r: bool)
        ensures
            r == (self.active() && !self.shutdown_requested()),
    {
        self.active && !self.shutdown_requested
    }

    /// The coordinator's health check: healthy exactly when ready.
    pub fn health_check(&self) -> (r: Result<(), String>)
        ensures
            r is Ok <==> (self.active() && !self.shutdown_requested()),
            r matches Err(m) ==> m@ == "BackgroundTaskManager не готов"@,
    {
        if !self.is_ready() {
            return Err(String::from_str("BackgroundTaskManager не готов"));
        }
        Ok(())
    }

    /// The detailed health check: failing while stopping, or when the manager runs with no
    /// task.
    pub fn perform_health_check(&self) -> (r: Result<(), String>)
        ensures
            self.shutdown_requested() ==> (r matches Err(m) && m@ == "BackgroundTaskManager в процессе остановки"@),
            !self.shutdown_requested() && self.task_count() == 0 && self.active() ==> (r matches Err(m)
                && m@ == "Нет активных задач при работающем менеджере"@),
            !self.shutdown_requested() && !(self.task_count() == 0 && self.active()) ==> r is Ok,
    {
        if self.shutdown_requested {
            return Err(String::from_str("BackgroundTaskManager в процессе остановки"));
        }
        if self.tasks == 0 && self.active {
            return Err(String::from_str("Нет активных задач при работающем менеджере"));
        }
        Ok(())
    }
}

} // verus!
