//! The tracker of child handles: which spawned processes the supervisor
//! still holds a handle to, by pid, and which of them the reaper lets go.
//!
//! The tracker does not know what a handle is. The embedding program keeps
//! it behind a lock and holds the lock for one call at a time.

use std::collections::HashMap;
use vstd::prelude::*;
use vstd::std_specs::hash::*;
use vstd::std_specs::iter::IteratorSpec;

verus! {

broadcast use vstd::std_specs::hash::group_hash_axioms;

/// Seconds between two rounds of the reaper.
pub const REAP_INTERVAL_SECS: u64 = 5;

/// What a non-blocking check of a child handle said.
#[derive(Debug, Clone, Copy, PartialEq, Eq, Structural)]
pub enum PollOutcome {
    /// The child has terminated and was collected.
    Exited,
    /// The child is still running.
    Running,
    /// The check itself failed.
    Failed,
}

/// Whether the reaper lets a handle go after a check: one whose child has
/// terminated, and one that could not be checked, which is taken for dead.
pub open spec fn reaped(outcome: PollOutcome) -> bool {
    outcome != PollOutcome::Running
}

/// The handles of the spawned processes, by pid.
pub struct Tracker<H> {
    handles: HashMap<u32, H>,
}

impl<H> View for Tracker<H> {
    type V = Map<u32, H>;

    closed spec fn view(&self) -> Map<u32, H> {
        self.handles@
    }
}

impl<H> Tracker<H> {
    /// A tracker without handles.
    pub fn new() -> (tracker: Self)
        ensures
            tracker@ == Map::<u32, H>::empty(),
    {
        Tracker { handles: HashMap::new() }
    }

    /// Number of handles.
    pub fn len(&self) -> (count: usize)
        ensures
            count == self@.len(),
    {
        self.handles.len()
    }

    /// Whether a handle is held for `pid`.
    pub fn is_tracking(&self, pid: u32) -> (held: bool)
        ensures
            held == self@.contains_key(pid),
    {
        self.handles.contains_key(&pid)
    }

    /// Puts `handle` in for `pid`. Returns the handle that was there for
    /// the pid, if there was one.
    pub fn track(&mut self, pid: u32, handle: H) -> (replaced: Option<H>)
        ensures
            final(self)@ == old(self)@.insert(pid, handle),
            match replaced {
                Some(was) => old(self)@.contains_key(pid) && was == old(self)@[pid],
                None => !old(self)@.contains_key(pid),
            },
    {
        self.handles.insert(pid, handle)
    }

    /// Takes the handle for `pid` out, if there is one.
    pub fn take(&mut self, pid: u32) -> (handle: Option<H>)
        ensures
            final(self)@ == old(self)@.remove(pid),
            match handle {
                Some(was) => old(self)@.contains_key(pid) && was == old(self)@[pid],
                None => !old(self)@.contains_key(pid),
            },
    {
        self.handles.remove(&pid)
    }

    /// Drops the handle for `pid`, if there is one. Tells whether there
    /// was.
    pub fn untrack(&mut self, pid: u32) -> (found: bool)
        ensures
            final(self)@ == old(self)@.remove(pid),
            found == old(self)@.contains_key(pid),
    {
        self.handles.remove(&pid).is_some()
    }

    /// Whether the reaper lets a handle go after a check that said
    /// `outcome`.
    pub fn should_reap(outcome: PollOutcome) -> (gone: bool)
        ensures
            gone == reaped(outcome),
    {
        match outcome {
            PollOutcome::Running => false,
            _ => true,
        }
    }

    /// Ends the reaper's check of one handle, which it took out for the
    /// check: the handle goes back in if its child is still running, and is
    /// dropped otherwise. Tells whether it was dropped.
    pub fn settle(&mut self, pid: u32, handle: H, outcome: PollOutcome) -> (gone: bool)
        ensures
            gone == reaped(outcome),
            final(self)@ == if reaped(outcome) {
                old(self)@
            } else {
                old(self)@.insert(pid, handle)
            },
    {
        if Self::should_reap(outcome) {
            true
        } else {
            self.handles.insert(pid, handle);
            false
        }
    }

    /// The pids that handles are held for, each once, in no particular
    /// order.
    pub fn pids(&self) -> (pids: Vec<u32>)
        ensures
            pids@.to_set() == self@.dom(),
            pids@.no_duplicates(),
            pids@.len() == self@.len(),
    {
        let mut pids: Vec<u32> = Vec::new();
        let keys = self.handles.keys();
        let ghost all = keys.remaining();
        for pid in it: keys
            invariant
                it.seq() == all,
                pids@.len() == it.index(),
                forall|j: int| 0 <= j < pids@.len() ==> pids@[j] == *all[j],
        {
            pids.push(*pid);
        }
        assert(pids@ =~= all.unref());
        assert(pids@.no_duplicates()) by {
            assert forall|i: int, j: int|
                0 <= i < pids@.len() && 0 <= j < pids@.len() && i != j implies pids@[i]
                != pids@[j] by {
                assert(all[i] != all[j]);
            }
        }
        pids
    }
}

} // verus!
