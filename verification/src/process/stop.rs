//! The stop protocol: terminate a process through its tracked handle, or
//! by signal where no handle is tracked, and record it as stopped.

use crate::database::ProcessStatus;
use crate::error::{Error, ErrorView};
use crate::exchange::{Event, Request, RequestView};
use crate::error::optional_error;
use crate::text::{decimal_digits, push_decimal};
use vstd::prelude::*;
use vstd::string::StringExecFns;

verus! {

/// Time given to a process to exit after a termination signal, where no
/// handle tells when it has.
pub const SETTLE_MILLIS: u64 = 500;

/// Where a stop stands.
#[derive(Debug, Clone, Copy, PartialEq, Eq, Structural)]
pub enum StopPhase {
    /// The record is looked up.
    Find,
    /// The tracker is asked for the handle.
    Take,
    /// The process is terminated through its handle.
    Kill,
    /// The handle goes back into the tracker: the termination failed.
    Return,
    /// The termination signal is sent by pid.
    Signal,
    /// The settle delay passes.
    Settle,
    /// The record is set to stopped.
    Persist,
    /// The stop has ended.
    Done,
}

/// The message of a successful stop.
pub open spec fn stopped_message(name: Seq<char>) -> Seq<char> {
    "Process '"@ + name + "' stopped"@
}

/// The failure of a stop of a record without pid.
pub open spec fn no_pid(name: Seq<char>) -> ErrorView {
    ErrorView::InvalidProcessState("Process '"@ + name + "' has no PID"@)
}

/// The failure of a termination through the handle, refused with `reason`.
pub open spec fn kill_failure(name: Seq<char>, pid: u32, reason: Seq<char>) -> ErrorView {
    ErrorView::Other(
        "Failed to stop process '"@ + name + "' with PID "@ + decimal_digits(pid as nat) + ": "@
            + reason,
    )
}

/// The failure of a termination signal that was not delivered.
pub open spec fn signal_failure(name: Seq<char>, pid: u32) -> ErrorView {
    ErrorView::Other(
        "Failed to stop process '"@ + name + "' with PID "@ + decimal_digits(pid as nat),
    )
}

/// Mathematical value of a [`StopProcess`].
pub struct StopView {
    pub phase: StopPhase,
    pub name: Seq<char>,
    pub pid: Option<u32>,
    pub failure: Option<ErrorView>,
}

impl StopView {
    /// The stop of the process `name` before its first step.
    pub open spec fn initial(name: Seq<char>) -> StopView {
        StopView { phase: StopPhase::Find, name, pid: None, failure: None }
    }

    /// What holds of every state that a stop reaches.
    pub open spec fn well_formed(self) -> bool {
        match self.phase {
            StopPhase::Find => self.failure is None,
            StopPhase::Take | StopPhase::Kill | StopPhase::Signal | StopPhase::Settle
            | StopPhase::Persist => self.pid is Some && self.failure is None,
            StopPhase::Return => self.pid is Some && self.failure is Some,
            StopPhase::Done => true,
        }
    }

    /// The request that the stop asks for in this state.
    pub open spec fn request(self) -> RequestView {
        match self.phase {
            StopPhase::Find => RequestView::FindRecord { name: self.name },
            StopPhase::Take => RequestView::TakeHandle { pid: self.pid->0 },
            StopPhase::Kill => RequestView::KillHandle { pid: self.pid->0 },
            StopPhase::Return => RequestView::ReturnHandle { pid: self.pid->0 },
            StopPhase::Signal => RequestView::Signal { pid: self.pid->0 },
            StopPhase::Settle => RequestView::Sleep { millis: SETTLE_MILLIS },
            StopPhase::Persist => RequestView::UpdateStatus {
                name: self.name,
                status: ProcessStatus::Stopped,
                pid: self.pid,
            },
            StopPhase::Done => RequestView::Finished,
        }
    }

    /// The stop ends at once with `failure`.
    pub open spec fn ended_with(self, failure: ErrorView) -> StopView {
        StopView { phase: StopPhase::Done, failure: Some(failure), ..self }
    }

    /// After the lookup: a record is needed, and a pid in it.
    pub open spec fn after_find(self, event: Event) -> StopView {
        match event {
            Event::Record(None) => self.ended_with(ErrorView::ProcessNotFound(self.name)),
            Event::Record(Some(record)) => match record.pid {
                None => self.ended_with(no_pid(self.name)),
                Some(pid) => StopView { phase: StopPhase::Take, pid: Some(pid), ..self },
            },
            Event::Failed(e) => self.ended_with(e@),
            _ => self,
        }
    }

    /// After the tracker was asked for the handle: with a handle the process
    /// is terminated through it, without one by signal.
    pub open spec fn after_take(self, event: Event) -> StopView {
        match event {
            Event::Taken(true) => StopView { phase: StopPhase::Kill, ..self },
            Event::Taken(false) => StopView { phase: StopPhase::Signal, ..self },
            _ => self,
        }
    }

    /// After the termination through the handle: on failure the handle goes
    /// back into the tracker.
    pub open spec fn after_kill(self, event: Event) -> StopView {
        match event {
            Event::Done => StopView { phase: StopPhase::Persist, ..self },
            Event::Failed(e) => StopView {
                phase: StopPhase::Return,
                failure: Some(kill_failure(self.name, self.pid->0, e@.detail())),
                ..self
            },
            _ => self,
        }
    }

    /// After the handle went back into the tracker.
    pub open spec fn after_return(self, event: Event) -> StopView {
        match event {
            Event::Done => StopView { phase: StopPhase::Done, ..self },
            _ => self,
        }
    }

    /// After the termination signal.
    pub open spec fn after_signal(self, event: Event) -> StopView {
        match event {
            Event::Signaled(true) => StopView { phase: StopPhase::Settle, ..self },
            Event::Signaled(false) => self.ended_with(signal_failure(self.name, self.pid->0)),
            _ => self,
        }
    }

    /// After the settle delay.
    pub open spec fn after_settle(self, event: Event) -> StopView {
        match event {
            Event::Done => StopView { phase: StopPhase::Persist, ..self },
            _ => self,
        }
    }

    /// After the store was asked to set the record to stopped.
    pub open spec fn after_persist(self, event: Event) -> StopView {
        match event {
            Event::Done => StopView { phase: StopPhase::Done, ..self },
            Event::Failed(e) => self.ended_with(e@),
            _ => self,
        }
    }

    /// The state that follows `event`. An event that is no answer to the
    /// pending request changes nothing.
    pub open spec fn step(self, event: Event) -> StopView {
        match self.phase {
            StopPhase::Find => self.after_find(event),
            StopPhase::Take => self.after_take(event),
            StopPhase::Kill => self.after_kill(event),
            StopPhase::Return => self.after_return(event),
            StopPhase::Signal => self.after_signal(event),
            StopPhase::Settle => self.after_settle(event),
            StopPhase::Persist => self.after_persist(event),
            StopPhase::Done => self,
        }
    }

    /// A step keeps a state well formed.
    pub proof fn lemma_step_keeps_well_formed(self, event: Event)
        requires
            self.well_formed(),
        ensures
            self.step(event).well_formed(),
    {
    }

    /// What the stop ended with, once it has ended.
    pub open spec fn outcome(self) -> Option<Result<Seq<char>, ErrorView>> {
        if self.phase == StopPhase::Done {
            Some(
                match self.failure {
                    Some(e) => Err(e),
                    None => Ok(stopped_message(self.name)),
                },
            )
        } else {
            None
        }
    }
}

/// One stop of a process, as a protocol.
#[derive(Debug)]
pub struct StopProcess {
    phase: StopPhase,
    name: String,
    pid: Option<u32>,
    failure: Option<Error>,
}

impl View for StopProcess {
    type V = StopView;

    closed spec fn view(&self) -> StopView {
        StopView {
            phase: self.phase,
            name: self.name@,
            pid: self.pid,
            failure: optional_error(self.failure),
        }
    }
}

impl StopProcess {
    #[verifier::type_invariant]
    spec fn inv(self) -> bool {
        self@.well_formed()
    }

    /// The stop of the process `name`, before its first step.
    pub fn new(name: String) -> (stop: Self)
        ensures
            stop@ == StopView::initial(name@),
    {
        StopProcess { phase: StopPhase::Find, name, pid: None, failure: None }
    }

    /// Whether the stop has ended.
    pub fn is_finished(&self) -> (done: bool)
        ensures
            done == (self@.phase == StopPhase::Done),
            done == (self@.request() == RequestView::Finished),
            done == self@.outcome() is Some,
    {
        match self.phase {
            StopPhase::Done => true,
            _ => false,
        }
    }

    /// Whether the stop has ended in failure.
    pub fn has_failed(&self) -> (failed: bool)
        ensures
            failed == (self@.phase == StopPhase::Done && self@.failure is Some),
    {
        match self.phase {
            StopPhase::Done => self.failure.is_some(),
            _ => false,
        }
    }

    /// The request to carry out next.
    pub fn request(&self) -> (request: Request)
        ensures
            request@ == self@.request(),
    {
        proof {
            use_type_invariant(self);
        }
        match self.phase {
            StopPhase::Find => Request::FindRecord { name: self.name.clone() },
            StopPhase::Take => Request::TakeHandle { pid: self.pid.unwrap() },
            StopPhase::Kill => Request::KillHandle { pid: self.pid.unwrap() },
            StopPhase::Return => Request::ReturnHandle { pid: self.pid.unwrap() },
            StopPhase::Signal => Request::Signal { pid: self.pid.unwrap() },
            StopPhase::Settle => Request::Sleep { millis: SETTLE_MILLIS },
            StopPhase::Persist => Request::UpdateStatus {
                name: self.name.clone(),
                status: ProcessStatus::Stopped,
                pid: self.pid,
            },
            StopPhase::Done => Request::Finished,
        }
    }

    /// What the stop ended with, once it has ended: the message of a
    /// success, or the failure.
    pub fn outcome(&self) -> (outcome: Option<Result<String, Error>>)
        ensures
            match outcome {
                Some(Ok(message)) => self@.outcome() == Some(Ok::<Seq<char>, ErrorView>(message@)),
                Some(Err(e)) => self@.outcome() == Some(Err::<Seq<char>, ErrorView>(e@)),
                None => self@.outcome() is None,
            },
    {
        match self.phase {
            StopPhase::Done => match &self.failure {
                Some(e) => Some(Err(e.clone())),
                None => {
                    let mut message = String::from_str("Process '");
                    message.append(self.name.as_str());
                    message.append("' stopped");
                    Some(Ok(message))
                },
            },
            _ => None,
        }
    }

    fn ended_with(self, failure: Error) -> (next: Self)
        ensures
            next@ == self@.ended_with(failure@),
    {
        StopProcess { phase: StopPhase::Done, failure: Some(failure), ..self }
    }

    fn moved_to(self, phase: StopPhase) -> (next: Self)
        requires
            (StopView { phase, ..self@ }).well_formed(),
        ensures
            next@ == (StopView { phase, ..self@ }),
    {
        StopProcess { phase, ..self }
    }

    fn stop_failure_text(&self, pid: u32) -> (text: String)
        ensures
            text@ == "Failed to stop process '"@ + self@.name + "' with PID "@ + decimal_digits(
                pid as nat,
            ),
    {
        let mut text = String::from_str("Failed to stop process '");
        text.append(self.name.as_str());
        text.append("' with PID ");
        push_decimal(&mut text, pid as u64);
        text
    }

    fn after_find(self, event: Event) -> (next: Self)
        requires
            self@.phase == StopPhase::Find,
        ensures
            next@ == self@.after_find(event),
    {
        proof {
            use_type_invariant(&self);
        }
        match event {
            Event::Record(None) => {
                let name = self.name.clone();
                self.ended_with(Error::ProcessNotFound(name))
            },
            Event::Record(Some(record)) => match record.pid {
                None => {
                    let mut text = String::from_str("Process '");
                    text.append(self.name.as_str());
                    text.append("' has no PID");
                    self.ended_with(Error::InvalidProcessState(text))
                },
                Some(pid) => StopProcess { phase: StopPhase::Take, pid: Some(pid), ..self },
            },
            Event::Failed(e) => self.ended_with(e),
            _ => self,
        }
    }

    fn after_take(self, event: Event) -> (next: Self)
        requires
            self@.phase == StopPhase::Take,
        ensures
            next@ == self@.after_take(event),
    {
        proof {
            use_type_invariant(&self);
        }
        match event {
            Event::Taken(true) => self.moved_to(StopPhase::Kill),
            Event::Taken(false) => self.moved_to(StopPhase::Signal),
            _ => self,
        }
    }

    fn after_kill(self, event: Event) -> (next: Self)
        requires
            self@.phase == StopPhase::Kill,
        ensures
            next@ == self@.after_kill(event),
    {
        proof {
            use_type_invariant(&self);
        }
        match event {
            Event::Done => self.moved_to(StopPhase::Persist),
            Event::Failed(e) => {
                let mut text = self.stop_failure_text(self.pid.unwrap());
                text.append(": ");
                text.append(e.detail().as_str());
                StopProcess { phase: StopPhase::Return, failure: Some(Error::Other(text)), ..self }
            },
            _ => self,
        }
    }

    fn after_return(self, event: Event) -> (next: Self)
        requires
            self@.phase == StopPhase::Return,
        ensures
            next@ == self@.after_return(event),
    {
        proof {
            use_type_invariant(&self);
        }
        match event {
            Event::Done => self.moved_to(StopPhase::Done),
            _ => self,
        }
    }

    fn after_signal(self, event: Event) -> (next: Self)
        requires
            self@.phase == StopPhase::Signal,
        ensures
            next@ == self@.after_signal(event),
    {
        proof {
            use_type_invariant(&self);
        }
        match event {
            Event::Signaled(true) => self.moved_to(StopPhase::Settle),
            Event::Signaled(false) => {
                let text = self.stop_failure_text(self.pid.unwrap());
                self.ended_with(Error::Other(text))
            },
            _ => self,
        }
    }

    fn after_settle(self, event: Event) -> (next: Self)
        requires
            self@.phase == StopPhase::Settle,
        ensures
            next@ == self@.after_settle(event),
    {
        proof {
            use_type_invariant(&self);
        }
        match event {
            Event::Done => self.moved_to(StopPhase::Persist),
            _ => self,
        }
    }

    fn after_persist(self, event: Event) -> (next: Self)
        requires
            self@.phase == StopPhase::Persist,
        ensures
            next@ == self@.after_persist(event),
    {
        proof {
            use_type_invariant(&self);
        }
        match event {
            Event::Done => self.moved_to(StopPhase::Done),
            Event::Failed(e) => self.ended_with(e),
            _ => self,
        }
    }

    /// Moves the stop on by one observation.
    pub fn advance(self, event: Event) -> (next: Self)
        ensures
            next@ == self@.step(event),
    {
        match self.phase {
            StopPhase::Find => self.after_find(event),
            StopPhase::Take => self.after_take(event),
            StopPhase::Kill => self.after_kill(event),
            StopPhase::Return => self.after_return(event),
            StopPhase::Signal => self.after_signal(event),
            StopPhase::Settle => self.after_settle(event),
            StopPhase::Persist => self.after_persist(event),
            StopPhase::Done => self,
        }
    }
}

} // verus!
