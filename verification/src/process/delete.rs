//! The delete protocol: stop the process if it is alive, delete its
//! record, and remove its log as far as that goes.

use crate::database::{ProcessRecord, RecordView};
use crate::error::{Error, ErrorView};
use crate::exchange::{Event, Request, RequestView};
use crate::error::optional_error;
use crate::process::stop::{SETTLE_MILLIS, StopPhase, StopProcess, StopView};
use vstd::prelude::*;
use vstd::string::StringExecFns;

verus! {

/// Where a delete stands.
#[derive(Debug, Clone, Copy, PartialEq, Eq, Structural)]
pub enum DeletePhase {
    /// The record is looked up.
    Find,
    /// The process is probed.
    Probe,
    /// The process is alive and is stopped first.
    Stopping,
    /// The stop failed: the termination signal is sent by pid.
    Fallback,
    /// The settle delay after that signal passes.
    FallbackSettle,
    /// The process is not alive: its handle is dropped from the tracker.
    Untrack,
    /// The record is deleted.
    Delete,
    /// The log file is removed.
    RemoveLog,
    /// The delete has ended.
    Done,
}

/// The message of a successful delete.
pub open spec fn deleted_message(name: Seq<char>) -> Seq<char> {
    "Process '"@ + name + "' deleted"@
}

/// Mathematical value of a [`DeleteProcess`].
pub struct DeleteView {
    pub phase: DeletePhase,
    pub name: Seq<char>,
    pub pid: Option<u32>,
    pub log_path: Seq<char>,
    /// Whether a stop that fails is followed by a termination signal and
    /// the delete goes on, as in a sweep; else the delete ends with the
    /// failure of the stop.
    pub forceful: bool,
    /// The stop of the process, where it is alive.
    pub stop: StopView,
    pub failure: Option<ErrorView>,
}

impl DeleteView {
    /// The delete of the process `name` before its first step.
    pub open spec fn initial(name: Seq<char>) -> DeleteView {
        DeleteView {
            phase: DeletePhase::Find,
            name,
            pid: None,
            log_path: Seq::empty(),
            forceful: false,
            stop: StopView::initial(name),
            failure: None,
        }
    }

    /// The first phase of the delete of a record that is at hand: one with
    /// a pid is probed, one without is deleted at once.
    pub open spec fn first_phase(pid: Option<u32>) -> DeletePhase {
        if pid is Some {
            DeletePhase::Probe
        } else {
            DeletePhase::Delete
        }
    }

    /// The delete of `record` as part of a sweep, before its first step.
    pub open spec fn of_record(record: RecordView) -> DeleteView {
        DeleteView {
            phase: Self::first_phase(record.pid),
            name: record.name,
            pid: record.pid,
            log_path: record.log_path,
            forceful: true,
            stop: StopView::initial(record.name),
            failure: None,
        }
    }

    /// What holds of every state that a delete reaches.
    pub open spec fn well_formed(self) -> bool {
        &&& self.stop.well_formed()
        &&& self.stop.name == self.name
        &&& match self.phase {
            DeletePhase::Find => self.failure is None && self.stop.phase == StopPhase::Find,
            DeletePhase::Probe => self.failure is None && self.pid is Some && self.stop.phase
                == StopPhase::Find,
            DeletePhase::Fallback | DeletePhase::FallbackSettle | DeletePhase::Untrack => {
                self.failure is None && self.pid is Some
            },
            DeletePhase::Stopping => self.failure is None && self.pid is Some && self.stop.phase
                != StopPhase::Done,
            DeletePhase::Delete | DeletePhase::RemoveLog => self.failure is None,
            DeletePhase::Done => true,
        }
    }

    /// The request that the delete asks for in this state.
    pub open spec fn request(self) -> RequestView {
        match self.phase {
            DeletePhase::Find => RequestView::FindRecord { name: self.name },
            DeletePhase::Probe => RequestView::Probe { pid: self.pid->0 },
            DeletePhase::Stopping => self.stop.request(),
            DeletePhase::Fallback => RequestView::Signal { pid: self.pid->0 },
            DeletePhase::FallbackSettle => RequestView::Sleep { millis: SETTLE_MILLIS },
            DeletePhase::Untrack => RequestView::Untrack { pid: self.pid->0 },
            DeletePhase::Delete => RequestView::DeleteRecord { name: self.name },
            DeletePhase::RemoveLog => RequestView::RemoveFile { path: self.log_path },
            DeletePhase::Done => RequestView::Finished,
        }
    }

    /// The delete ends at once with `failure`.
    pub open spec fn ended_with(self, failure: ErrorView) -> DeleteView {
        DeleteView { phase: DeletePhase::Done, failure: Some(failure), ..self }
    }

    /// After the lookup.
    pub open spec fn after_find(self, event: Event) -> DeleteView {
        match event {
            Event::Record(None) => self.ended_with(ErrorView::ProcessNotFound(self.name)),
            Event::Record(Some(record)) => DeleteView {
                phase: Self::first_phase(record.pid),
                pid: record.pid,
                log_path: record.log_path@,
                ..self
            },
            Event::Failed(e) => self.ended_with(e@),
            _ => self,
        }
    }

    /// After the probe: a process that is alive is stopped, the handle of
    /// one that is not is dropped. A probe that failed counts as "not
    /// alive".
    pub open spec fn after_probe(self, event: Event) -> DeleteView {
        match event {
            Event::Alive(true) => DeleteView { phase: DeletePhase::Stopping, ..self },
            Event::Alive(false) => DeleteView { phase: DeletePhase::Untrack, ..self },
            Event::Failed(_) => DeleteView { phase: DeletePhase::Untrack, ..self },
            _ => self,
        }
    }

    /// After a step of the stop. Once the stop has ended, the delete goes
    /// on if it succeeded; if it failed, a forceful delete falls back on
    /// the termination signal and any other ends with the failure.
    pub open spec fn after_stopping(self, event: Event) -> DeleteView {
        let stop = self.stop.step(event);
        if stop.phase != StopPhase::Done {
            DeleteView { stop, ..self }
        } else if stop.failure is None {
            DeleteView { phase: DeletePhase::Delete, stop, ..self }
        } else if self.forceful {
            DeleteView { phase: DeletePhase::Fallback, stop, ..self }
        } else {
            DeleteView { phase: DeletePhase::Done, failure: stop.failure, stop, ..self }
        }
    }

    /// After the termination signal of the fallback: the settle delay is
    /// waited for only if the signal was delivered.
    pub open spec fn after_fallback(self, event: Event) -> DeleteView {
        match event {
            Event::Signaled(true) => DeleteView { phase: DeletePhase::FallbackSettle, ..self },
            Event::Signaled(false) => DeleteView { phase: DeletePhase::Delete, ..self },
            _ => self,
        }
    }

    /// After the settle delay of the fallback, and after the handle was
    /// dropped.
    pub open spec fn after_wait(self, event: Event) -> DeleteView {
        match event {
            Event::Done => DeleteView { phase: DeletePhase::Delete, ..self },
            _ => self,
        }
    }

    /// After the store was asked to delete the record: a record that was no
    /// longer there is a failure.
    pub open spec fn after_delete(self, event: Event) -> DeleteView {
        match event {
            Event::Deleted(true) => DeleteView { phase: DeletePhase::RemoveLog, ..self },
            Event::Deleted(false) => self.ended_with(ErrorView::ProcessNotFound(self.name)),
            Event::Failed(e) => self.ended_with(e@),
            _ => self,
        }
    }

    /// After the removal of the log file, whether it succeeded or not.
    pub open spec fn after_remove_log(self, event: Event) -> DeleteView {
        match event {
            Event::Done => DeleteView { phase: DeletePhase::Done, ..self },
            Event::Failed(_) => DeleteView { phase: DeletePhase::Done, ..self },
            _ => self,
        }
    }

    /// The state that follows `event`. An event that is no answer to the
    /// pending request changes nothing.
    pub open spec fn step(self, event: Event) -> DeleteView {
        match self.phase {
            DeletePhase::Find => self.after_find(event),
            DeletePhase::Probe => self.after_probe(event),
            DeletePhase::Stopping => self.after_stopping(event),
            DeletePhase::Fallback => self.after_fallback(event),
            DeletePhase::FallbackSettle => self.after_wait(event),
            DeletePhase::Untrack => self.after_wait(event),
            DeletePhase::Delete => self.after_delete(event),
            DeletePhase::RemoveLog => self.after_remove_log(event),
            DeletePhase::Done => self,
        }
    }

    /// A step keeps a state well formed.
    pub proof fn lemma_step_keeps_well_formed(self, event: Event)
        requires
            self.well_formed(),
        ensures
            self.step(event).well_formed(),
            self.step(event).name == self.name,
    {
        self.stop.lemma_step_keeps_well_formed(event);
    }

    /// What the delete ended with, once it has ended.
    pub open spec fn outcome(self) -> Option<Result<Seq<char>, ErrorView>> {
        if self.phase == DeletePhase::Done {
            Some(
                match self.failure {
                    Some(e) => Err(e),
                    None => Ok(deleted_message(self.name)),
                },
            )
        } else {
            None
        }
    }
}

/// One delete of a process, as a protocol.
#[derive(Debug)]
pub struct DeleteProcess {
    phase: DeletePhase,
    name: String,
    pid: Option<u32>,
    log_path: String,
    forceful: bool,
    stop: StopProcess,
    failure: Option<Error>,
}

impl View for DeleteProcess {
    type V = DeleteView;

    closed spec fn view(&self) -> DeleteView {
        DeleteView {
            phase: self.phase,
            name: self.name@,
            pid: self.pid,
            log_path: self.log_path@,
            forceful: self.forceful,
            stop: self.stop@,
            failure: optional_error(self.failure),
        }
    }
}

impl DeleteProcess {
    #[verifier::type_invariant]
    spec fn inv(self) -> bool {
        self@.well_formed()
    }

    /// The delete of the process `name`, before its first step.
    pub fn new(name: String) -> (delete: Self)
        ensures
            delete@ == DeleteView::initial(name@),
    {
        let stop = StopProcess::new(name.clone());
        DeleteProcess {
            phase: DeletePhase::Find,
            name,
            pid: None,
            log_path: String::new(),
            forceful: false,
            stop,
            failure: None,
        }
    }

    /// The delete of `record` as part of a sweep, before its first step.
    pub fn of_record(record: &ProcessRecord) -> (delete: Self)
        ensures
            delete@ == DeleteView::of_record(record@),
    {
        let stop = StopProcess::new(record.name.clone());
        let phase = if record.pid.is_some() {
            DeletePhase::Probe
        } else {
            DeletePhase::Delete
        };
        DeleteProcess {
            phase,
            name: record.name.clone(),
            pid: record.pid,
            log_path: record.log_path.clone(),
            forceful: true,
            stop,
            failure: None,
        }
    }

    /// Whether the delete has ended.
    pub fn is_finished(&self) -> (done: bool)
        ensures
            done == (self@.phase == DeletePhase::Done),
            done == self@.outcome() is Some,
    {
        match self.phase {
            DeletePhase::Done => true,
            _ => false,
        }
    }

    /// Whether the delete has ended in failure.
    pub fn has_failed(&self) -> (failed: bool)
        ensures
            failed == (self@.phase == DeletePhase::Done && self@.failure is Some),
    {
        match self.phase {
            DeletePhase::Done => self.failure.is_some(),
            _ => false,
        }
    }

    /// The request to carry out next.
    pub fn request(&self) -> (request: Request)
        ensures
            request@ == self@.request(),
    {
        proof {
            use_type_invariant(self);
        }
        match self.phase {
            DeletePhase::Find => Request::FindRecord { name: self.name.clone() },
            DeletePhase::Probe => Request::Probe { pid: self.pid.unwrap() },
            DeletePhase::Stopping => self.stop.request(),
            DeletePhase::Fallback => Request::Signal { pid: self.pid.unwrap() },
            DeletePhase::FallbackSettle => Request::Sleep { millis: SETTLE_MILLIS },
            DeletePhase::Untrack => Request::Untrack { pid: self.pid.unwrap() },
            DeletePhase::Delete => Request::DeleteRecord { name: self.name.clone() },
            DeletePhase::RemoveLog => Request::RemoveFile { path: self.log_path.clone() },
            DeletePhase::Done => Request::Finished,
        }
    }

    /// What the delete ended with, once it has ended: the message of a
    /// success, or the failure.
    pub fn outcome(&self) -> (outcome: Option<Result<String, Error>>)
        ensures
            match outcome {
                Some(Ok(message)) => self@.outcome() == Some(Ok::<Seq<char>, ErrorView>(message@)),
                Some(Err(e)) => self@.outcome() == Some(Err::<Seq<char>, ErrorView>(e@)),
                None => self@.outcome() is None,
            },
    {
        match self.phase {
            DeletePhase::Done => match &self.failure {
                Some(e) => Some(Err(e.clone())),
                None => {
                    let mut message = String::from_str("Process '");
                    message.append(self.name.as_str());
                    message.append("' deleted");
                    Some(Ok(message))
                },
            },
            _ => None,
        }
    }

    fn ended_with(self, failure: Error) -> (next: Self)
        ensures
            next@ == self@.ended_with(failure@),
    {
        proof {
            use_type_invariant(&self);
        }
        DeleteProcess { phase: DeletePhase::Done, failure: Some(failure), ..self }
    }

    fn moved_to(self, phase: DeletePhase) -> (next: Self)
        requires
            (DeleteView { phase, ..self@ }).well_formed(),
        ensures
            next@ == (DeleteView { phase, ..self@ }),
    {
        DeleteProcess { phase, ..self }
    }

    fn after_find(self, event: Event) -> (next: Self)
        requires
            self@.phase == DeletePhase::Find,
        ensures
            next@ == self@.after_find(event),
    {
        proof {
            use_type_invariant(&self);
        }
        match event {
            Event::Record(None) => {
                let name = self.name.clone();
                self.ended_with(Error::ProcessNotFound(name))
            },
            Event::Record(Some(record)) => {
                let phase = if record.pid.is_some() {
                    DeletePhase::Probe
                } else {
                    DeletePhase::Delete
                };
                DeleteProcess { phase, pid: record.pid, log_path: record.log_path, ..self }
            },
            Event::Failed(e) => self.ended_with(e),
            _ => self,
        }
    }

    fn after_probe(self, event: Event) -> (next: Self)
        requires
            self@.phase == DeletePhase::Probe,
        ensures
            next@ == self@.after_probe(event),
    {
        proof {
            use_type_invariant(&self);
        }
        match event {
            Event::Alive(true) => self.moved_to(DeletePhase::Stopping),
            Event::Alive(false) => self.moved_to(DeletePhase::Untrack),
            Event::Failed(_) => self.moved_to(DeletePhase::Untrack),
            _ => self,
        }
    }

    fn after_stopping(self, event: Event) -> (next: Self)
        requires
            self@.phase == DeletePhase::Stopping,
        ensures
            next@ == self@.after_stopping(event),
    {
        proof {
            use_type_invariant(&self);
            self@.stop.lemma_step_keeps_well_formed(event);
        }
        let forceful = self.forceful;
        let stop = self.stop.advance(event);
        if !stop.is_finished() {
            DeleteProcess { stop, ..self }
        } else {
            match stop.outcome() {
                Some(Err(e)) => {
                    if forceful {
                        DeleteProcess { phase: DeletePhase::Fallback, stop, ..self }
                    } else {
                        DeleteProcess { phase: DeletePhase::Done, failure: Some(e), stop, ..self }
                    }
                },
                _ => DeleteProcess { phase: DeletePhase::Delete, stop, ..self },
            }
        }
    }

    fn after_fallback(self, event: Event) -> (next: Self)
        requires
            self@.phase == DeletePhase::Fallback,
        ensures
            next@ == self@.after_fallback(event),
    {
        proof {
            use_type_invariant(&self);
        }
        match event {
            Event::Signaled(true) => self.moved_to(DeletePhase::FallbackSettle),
            Event::Signaled(false) => self.moved_to(DeletePhase::Delete),
            _ => self,
        }
    }

    fn after_wait(self, event: Event) -> (next: Self)
        requires
            self@.phase == DeletePhase::FallbackSettle || self@.phase == DeletePhase::Untrack,
        ensures
            next@ == self@.after_wait(event),
    {
        proof {
            use_type_invariant(&self);
        }
        match event {
            Event::Done => self.moved_to(DeletePhase::Delete),
            _ => self,
        }
    }

    fn after_delete(self, event: Event) -> (next: Self)
        requires
            self@.phase == DeletePhase::Delete,
        ensures
            next@ == self@.after_delete(event),
    {
        proof {
            use_type_invariant(&self);
        }
        match event {
            Event::Deleted(true) => self.moved_to(DeletePhase::RemoveLog),
            Event::Deleted(false) => {
                let name = self.name.clone();
                self.ended_with(Error::ProcessNotFound(name))
            },
            Event::Failed(e) => self.ended_with(e),
            _ => self,
        }
    }

    fn after_remove_log(self, event: Event) -> (next: Self)
        requires
            self@.phase == DeletePhase::RemoveLog,
        ensures
            next@ == self@.after_remove_log(event),
    {
        proof {
            use_type_invariant(&self);
        }
        match event {
            Event::Done => self.moved_to(DeletePhase::Done),
            Event::Failed(_) => self.moved_to(DeletePhase::Done),
            _ => self,
        }
    }

    /// Moves the delete on by one observation.
    pub fn advance(self, event: Event) -> (next: Self)
        ensures
            next@ == self@.step(event),
    {
        match self.phase {
            DeletePhase::Find => self.after_find(event),
            DeletePhase::Probe => self.after_probe(event),
            DeletePhase::Stopping => self.after_stopping(event),
            DeletePhase::Fallback => self.after_fallback(event),
            DeletePhase::FallbackSettle => self.after_wait(event),
            DeletePhase::Untrack => self.after_wait(event),
            DeletePhase::Delete => self.after_delete(event),
            DeletePhase::RemoveLog => self.after_remove_log(event),
            DeletePhase::Done => self,
        }
    }
}

} // verus!
