//! The lifecycle of a supervised process: which status follows from what
//! is observed of it.

use crate::database::{ProcessRecord, ProcessStatus, RecordView, StatusUpdate};
use vstd::prelude::*;

verus! {

/// Status after the grace window that follows a spawn: a process that is
/// still alive runs, one that has already exited is stopped.
pub open spec fn initial_status(alive: bool) -> ProcessStatus {
    if alive {
        ProcessStatus::Running
    } else {
        ProcessStatus::Stopped
    }
}

/// Status that passive reconciliation gives a record. With a pid, a failed
/// record stays failed, and any other follows the liveness probe. Without a
/// pid the process cannot be running: the record is failed.
pub open spec fn reconciled(status: ProcessStatus, pid: Option<u32>, alive: bool) -> ProcessStatus {
    match pid {
        Some(_) => if status == ProcessStatus::Failed {
            ProcessStatus::Failed
        } else if alive {
            ProcessStatus::Running
        } else {
            ProcessStatus::Stopped
        },
        None => ProcessStatus::Failed,
    }
}

impl RecordView {
    /// The record after passive reconciliation against a liveness probe.
    pub open spec fn reconciled(self, alive: bool) -> RecordView {
        RecordView { status: reconciled(self.status, self.pid, alive), ..self }
    }

    /// Whether passive reconciliation has to write to the store.
    pub open spec fn needs_update(self, alive: bool) -> bool {
        reconciled(self.status, self.pid, alive) != self.status
    }
}

/// Status after the grace window that follows a spawn.
pub fn status_after_grace(alive: bool) -> (status: ProcessStatus)
    ensures
        status == initial_status(alive),
{
    if alive {
        ProcessStatus::Running
    } else {
        ProcessStatus::Stopped
    }
}

/// Status that passive reconciliation gives a record in state `status`
/// with the pid `pid`, when the liveness probe says `alive`.
pub fn reconcile_status(status: ProcessStatus, pid: Option<u32>, alive: bool) -> (next:
    ProcessStatus)
    ensures
        next == reconciled(status, pid, alive),
{
    match pid {
        Some(_) => match status {
            ProcessStatus::Failed => ProcessStatus::Failed,
            _ => if alive {
                ProcessStatus::Running
            } else {
                ProcessStatus::Stopped
            },
        },
        None => ProcessStatus::Failed,
    }
}

impl ProcessRecord {
    /// Reconciles the record against a liveness probe of its pid. Returns
    /// the change to persist, if the status changed.
    pub fn reconcile(&mut self, alive: bool) -> (update: Option<StatusUpdate>)
        ensures
            final(self)@ == old(self)@.reconciled(alive),
            update is Some == old(self)@.needs_update(alive),
            update matches Some(u) ==> u.name@ == old(self)@.name && u.status == reconciled(
                old(self)@.status,
                old(self)@.pid,
                alive,
            ) && u.pid == old(self)@.pid,
    {
        let next = reconcile_status(self.status, self.pid, alive);
        if next != self.status {
            self.status = next;
            Some(StatusUpdate { name: self.name.clone(), status: next, pid: self.pid })
        } else {
            None
        }
    }
}

/// Reconciling twice against the same probe changes nothing the second
/// time: the status is the same and nothing is left to write.
pub proof fn lemma_reconcile_idempotent(record: RecordView, alive: bool)
    ensures
        record.reconciled(alive).reconciled(alive) == record.reconciled(alive),
        !record.reconciled(alive).needs_update(alive),
{
}

/// Passive reconciliation never moves a record out of `Failed`.
pub proof fn lemma_failed_is_sticky(pid: Option<u32>, alive: bool)
    ensures
        reconciled(ProcessStatus::Failed, pid, alive) == ProcessStatus::Failed,
{
}

/// A reconciled record that is running has a pid whose process is alive.
pub proof fn lemma_running_is_alive(status: ProcessStatus, pid: Option<u32>, alive: bool)
    requires
        reconciled(status, pid, alive) == ProcessStatus::Running,
    ensures
        pid is Some,
        alive,
{
}

} // verus!
