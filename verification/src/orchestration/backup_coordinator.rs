//! The backup coordinator. Backup and restore are not implemented yet: starting, stopping
//! and health checks always succeed.

use vstd::prelude::*;

verus! {

/// Coordinates backup and restore operations.
#[derive(Debug, Clone, Copy, PartialEq, Eq, Structural)]
pub struct BackupCoordinator {}

impl BackupCoordinator {
    /// A new backup coordinator.
    pub fn new() -> (c: Self)
        ensures
            c == (BackupCoordinator {}),
    {
        BackupCoordinator {}
    }

    /// The coordinator's name, `BackupCoordinator`.
    pub fn name(&self) -> (s: &'static str)
        ensures
            s@ == "BackupCoordinator"@,
    {
        proof { reveal_strlit("BackupCoordinator"); }
        "BackupCoordinator"
    }

    /// Starts the coordinator; it always succeeds.
    pub fn start(&mut self) -> (r: Result<(), String>)
        ensures
            r is Ok,
    {
        Ok(())
    }

    /// Stops the coordinator; it always succeeds.
    pub fn stop(&mut self) -> (r: Result<(), String>)
        ensures
            r is Ok,
    {
        Ok(())
    }

    /// Checks the coordinator's health; it is always healthy.
    pub fn health_check(&self) -> (r: Result<(), String>)
        ensures
            r is Ok,
    {
        Ok(())
    }
}

impl Default for BackupCoordinator {
    fn default() -> (c: Self)
        ensures
            c == (BackupCoordinator {}),
    {
        BackupCoordinator::new()
    }
}

} // verus!
