//! The restart protocol: stop the process if it is alive, delete its
//! record, and start it again as it was, with its log in the same
//! directory.

use crate::clock::current_time;
use crate::config::LogRotationConfig;
use crate::database::{ProcessRecord, RecordView, Timestamp, optional_record};
use crate::error::{Error, ErrorView, optional_error};
use crate::log_rotation::LogRotator;
use crate::paths::{join_path, joined_path, parent_of, parent_path};
use crate::exchange::{Event, Request, RequestView};
use crate::process::start::{
    StartPhase,
    StartProcess,
    StartView,
    log_file_name,
    optional_start,
    started_message,
};
use crate::process::stop::{SETTLE_MILLIS, StopPhase, StopProcess, StopView};
use crate::text::{copy_strings, strings_view};
use vstd::prelude::*;
use vstd::string::StringExecFns;

verus! {

/// Where a restart stands.
#[derive(Debug, Clone, Copy, PartialEq, Eq, Structural)]
pub enum RestartPhase {
    /// The record is looked up.
    Find,
    /// The process is probed.
    Probe,
    /// The process is alive and is stopped.
    Stopping,
    /// The settle delay after the stop passes.
    Settle,
    /// The record is deleted.
    Delete,
    /// The process is started again.
    Starting,
    /// The restart has ended.
    Done,
}

/// The message of a successful restart, given that of the start.
pub open spec fn restarted_message(name: Seq<char>, started: Seq<char>) -> Seq<char> {
    "Process '"@ + name + "' restarted. "@ + started
}

/// The directory for the log of a process that is started again: the one
/// that holds its log now, or the default where its log path has none.
pub open spec fn restart_log_dir(log_path: Seq<char>, default_log_dir: Seq<char>) -> Seq<char> {
    match parent_path(log_path) {
        Some(dir) => dir,
        None => default_log_dir,
    }
}

/// Mathematical value of a [`RestartProcess`].
pub struct RestartView {
    pub phase: RestartPhase,
    pub name: Seq<char>,
    /// The identifier for the record of the process started again.
    pub new_id: Seq<char>,
    pub default_log_dir: Seq<char>,
    pub rotation: LogRotationConfig,
    /// The record as found.
    pub record: Option<RecordView>,
    pub stop: StopView,
    pub start: Option<StartView>,
    pub failure: Option<ErrorView>,
}

impl RestartView {
    /// The restart of the process `name` before its first step.
    pub open spec fn initial(
        name: Seq<char>,
        new_id: Seq<char>,
        default_log_dir: Seq<char>,
        rotation: LogRotationConfig,
    ) -> RestartView {
        RestartView {
            phase: RestartPhase::Find,
            name,
            new_id,
            default_log_dir,
            rotation,
            record: None,
            stop: StopView::initial(name),
            start: None,
            failure: None,
        }
    }

    /// What holds of every state that a restart reaches.
    pub open spec fn well_formed(self) -> bool {
        &&& self.stop.well_formed()
        &&& match self.phase {
            RestartPhase::Find => self.failure is None && self.stop.phase == StopPhase::Find,
            RestartPhase::Probe => self.failure is None && self.record is Some
                && self.record->0.pid is Some && self.stop.phase == StopPhase::Find,
            RestartPhase::Stopping => self.failure is None && self.record is Some
                && self.stop.phase != StopPhase::Done,
            RestartPhase::Settle | RestartPhase::Delete => self.failure is None && self.record
                is Some,
            RestartPhase::Starting => self.failure is None && self.start is Some
                && self.start->0.phase != StartPhase::Done && self.start->0.well_formed(),
            RestartPhase::Done => self.failure is None ==> self.start is Some && self.start->0.phase
                == StartPhase::Done && self.start->0.failure is None
                && self.start->0.well_formed(),
        }
    }

    /// The request that the restart asks for in this state.
    pub open spec fn request(self) -> RequestView {
        match self.phase {
            RestartPhase::Find => RequestView::FindRecord { name: self.name },
            RestartPhase::Probe => RequestView::Probe { pid: self.record->0.pid->0 },
            RestartPhase::Stopping => self.stop.request(),
            RestartPhase::Settle => RequestView::Sleep { millis: SETTLE_MILLIS },
            RestartPhase::Delete => RequestView::DeleteRecord { name: self.name },
            RestartPhase::Starting => self.start->0.request(),
            RestartPhase::Done => RequestView::Finished,
        }
    }

    /// The restart ends at once with `failure`.
    pub open spec fn ended_with(self, failure: ErrorView) -> RestartView {
        RestartView { phase: RestartPhase::Done, failure: Some(failure), ..self }
    }

    /// The start of the process as `record` describes it, under the new
    /// identifier, with its log in the directory that holds its log now.
    pub open spec fn start_again(self, record: RecordView) -> StartView {
        let log_dir = restart_log_dir(record.log_path, self.default_log_dir);
        StartView::initial(
            self.new_id,
            self.name,
            record.command,
            record.args,
            record.env_vars,
            record.working_dir,
            log_dir,
            joined_path(log_dir, log_file_name(self.name)),
            self.rotation,
        )
    }

    /// After the lookup: a record with a pid is probed, one without is
    /// deleted at once.
    pub open spec fn after_find(self, event: Event) -> RestartView {
        match event {
            Event::Record(None) => self.ended_with(ErrorView::ProcessNotFound(self.name)),
            Event::Record(Some(record)) => RestartView {
                phase: if record.pid is Some {
                    RestartPhase::Probe
                } else {
                    RestartPhase::Delete
                },
                record: Some(record@),
                ..self
            },
            Event::Failed(e) => self.ended_with(e@),
            _ => self,
        }
    }

    /// After the probe: only a process that is alive is stopped. A probe
    /// that failed counts as "not alive".
    pub open spec fn after_probe(self, event: Event) -> RestartView {
        match event {
            Event::Alive(true) => RestartView { phase: RestartPhase::Stopping, ..self },
            Event::Alive(false) => RestartView { phase: RestartPhase::Delete, ..self },
            Event::Failed(_) => RestartView { phase: RestartPhase::Delete, ..self },
            _ => self,
        }
    }

    /// After a step of the stop. A stop that fails ends the restart.
    pub open spec fn after_stopping(self, event: Event) -> RestartView {
        let stop = self.stop.step(event);
        if stop.phase != StopPhase::Done {
            RestartView { stop, ..self }
        } else if stop.failure is None {
            RestartView { phase: RestartPhase::Settle, stop, ..self }
        } else {
            RestartView { phase: RestartPhase::Done, failure: stop.failure, stop, ..self }
        }
    }

    /// After the settle delay.
    pub open spec fn after_settle(self, event: Event) -> RestartView {
        match event {
            Event::Done => RestartView { phase: RestartPhase::Delete, ..self },
            _ => self,
        }
    }

    /// After the store was asked to delete the record: the start begins,
    /// whether a record was there to delete or not.
    pub open spec fn after_delete(self, event: Event) -> RestartView {
        match event {
            Event::Deleted(_) => RestartView {
                phase: RestartPhase::Starting,
                start: Some(self.start_again(self.record->0)),
                ..self
            },
            Event::Failed(e) => self.ended_with(e@),
            _ => self,
        }
    }

    /// After a step of the start. The restart ends as the start does.
    pub open spec fn after_starting(self, event: Event, now: Timestamp) -> RestartView {
        let start = self.start->0.step(event, now);
        if start.phase != StartPhase::Done {
            RestartView { start: Some(start), ..self }
        } else {
            RestartView {
                phase: RestartPhase::Done,
                failure: start.failure,
                start: Some(start),
                ..self
            }
        }
    }

    /// The state that follows `event`; `now` is the instant at which the
    /// event is handled. An event that is no answer to the pending request
    /// changes nothing.
    pub open spec fn step(self, event: Event, now: Timestamp) -> RestartView {
        match self.phase {
            RestartPhase::Find => self.after_find(event),
            RestartPhase::Probe => self.after_probe(event),
            RestartPhase::Stopping => self.after_stopping(event),
            RestartPhase::Settle => self.after_settle(event),
            RestartPhase::Delete => self.after_delete(event),
            RestartPhase::Starting => self.after_starting(event, now),
            RestartPhase::Done => self,
        }
    }

    /// What the restart ended with, once it has ended.
    pub open spec fn outcome(self) -> Option<Result<Seq<char>, ErrorView>> {
        if self.phase == RestartPhase::Done {
            Some(
                match self.failure {
                    Some(e) => Err(e),
                    None => Ok(
                        restarted_message(
                            self.name,
                            started_message(
                                self.start->0.name,
                                self.start->0.pid->0,
                                self.start->0.status,
                            ),
                        ),
                    ),
                },
            )
        } else {
            None
        }
    }
}

/// One restart of a process, as a protocol.
#[derive(Debug)]
pub struct RestartProcess {
    phase: RestartPhase,
    name: String,
    new_id: String,
    default_log_dir: String,
    rotator: LogRotator,
    record: Option<ProcessRecord>,
    stop: StopProcess,
    start: Option<StartProcess>,
    failure: Option<Error>,
}

impl View for RestartProcess {
    type V = RestartView;

    closed spec fn view(&self) -> RestartView {
        RestartView {
            phase: self.phase,
            name: self.name@,
            new_id: self.new_id@,
            default_log_dir: self.default_log_dir@,
            rotation: self.rotator.policy(),
            record: optional_record(self.record),
            stop: self.stop@,
            start: optional_start(self.start),
            failure: optional_error(self.failure),
        }
    }
}

impl RestartProcess {
    #[verifier::type_invariant]
    spec fn inv(self) -> bool {
        self@.well_formed()
    }

    /// The restart of the process `name`, before its first step. `new_id`
    /// is the identifier of the record of the process started again,
    /// `default_log_dir` the directory for its log where its log path now
    /// has no directory, `rotator` the rotation in force.
    pub fn new(name: String, new_id: String, default_log_dir: String, rotator: LogRotator) -> (restart:
        Self)
        ensures
            restart@ == RestartView::initial(name@, new_id@, default_log_dir@, rotator.policy()),
    {
        let stop = StopProcess::new(name.clone());
        RestartProcess {
            phase: RestartPhase::Find,
            name,
            new_id,
            default_log_dir,
            rotator,
            record: None,
            stop,
            start: None,
            failure: None,
        }
    }

    /// Whether the restart has ended.
    pub fn is_finished(&self) -> (done: bool)
        ensures
            done == (self@.phase == RestartPhase::Done),
            done == self@.outcome() is Some,
    {
        match self.phase {
            RestartPhase::Done => true,
            _ => false,
        }
    }

    /// What the rollback of the start could not take back, one sentence
    /// each.
    pub fn warnings(&self) -> (warnings: Vec<String>)
        ensures
            strings_view(warnings@) == match self@.start {
                Some(start) => start.warnings,
                None => Seq::empty(),
            },
    {
        match &self.start {
            Some(start) => copy_strings(start.warnings()),
            None => {
                let none: Vec<String> = Vec::new();
                assert(strings_view(none@) =~= Seq::<Seq<char>>::empty());
                none
            },
        }
    }

    /// The request to carry out next.
    pub fn request(&self) -> (request: Request)
        ensures
            request@ == self@.request(),
    {
        proof {
            use_type_invariant(self);
        }
        match self.phase {
            RestartPhase::Find => Request::FindRecord { name: self.name.clone() },
            RestartPhase::Probe => match &self.record {
                Some(record) => Request::Probe { pid: record.pid.unwrap() },
                None => Request::Finished,
            },
            RestartPhase::Stopping => self.stop.request(),
            RestartPhase::Settle => Request::Sleep { millis: SETTLE_MILLIS },
            RestartPhase::Delete => Request::DeleteRecord { name: self.name.clone() },
            RestartPhase::Starting => match &self.start {
                Some(start) => start.request(),
                None => Request::Finished,
            },
            RestartPhase::Done => Request::Finished,
        }
    }

    /// What the restart ended with, once it has ended: the message of a
    /// success, or the failure.
    pub fn outcome(&self) -> (outcome: Option<Result<String, Error>>)
        ensures
            match outcome {
                Some(Ok(message)) => self@.outcome() == Some(Ok::<Seq<char>, ErrorView>(message@)),
                Some(Err(e)) => self@.outcome() == Some(Err::<Seq<char>, ErrorView>(e@)),
                None => self@.outcome() is None,
            },
    {
        proof {
            use_type_invariant(self);
        }
        match self.phase {
            RestartPhase::Done => match &self.failure {
                Some(e) => Some(Err(e.clone())),
                None => match &self.start {
                    Some(start) => match start.outcome() {
                        Some(Ok(started)) => {
                            let mut message = String::from_str("Process '");
                            message.append(self.name.as_str());
                            message.append("' restarted. ");
                            message.append(started.as_str());
                            Some(Ok(message))
                        },
                        _ => None,
                    },
                    None => None,
                },
            },
            _ => None,
        }
    }

    fn ended_with(self, failure: Error) -> (next: Self)
        ensures
            next@ == self@.ended_with(failure@),
    {
        proof {
            use_type_invariant(&self);
        }
        RestartProcess { phase: RestartPhase::Done, failure: Some(failure), ..self }
    }

    fn moved_to(self, phase: RestartPhase) -> (next: Self)
        requires
            (RestartView { phase, ..self@ }).well_formed(),
        ensures
            next@ == (RestartView { phase, ..self@ }),
    {
        RestartProcess { phase, ..self }
    }

    fn start_again(&self, record: &ProcessRecord) -> (start: StartProcess)
        ensures
            start@ == self@.start_again(record@),
    {
        let log_dir = match parent_of(record.log_path.as_str()) {
            Some(dir) => dir,
            None => self.default_log_dir.clone(),
        };
        let file = StartProcess::log_file_name(self.name.as_str());
        let log_path = join_path(log_dir.as_str(), file.as_str());
        StartProcess::new(
            self.new_id.clone(),
            self.name.clone(),
            record.command.clone(),
            copy_strings(&record.args),
            record.env_vars.clone(),
            record.working_dir.clone(),
            log_dir,
            log_path,
            self.rotator,
        )
    }

    fn after_find(self, event: Event) -> (next: Self)
        requires
            self@.phase == RestartPhase::Find,
        ensures
            next@ == self@.after_find(event),
    {
        proof {
            use_type_invariant(&self);
        }
        match event {
            Event::Record(None) => {
                let name = self.name.clone();
                self.ended_with(Error::ProcessNotFound(name))
            },
            Event::Record(Some(record)) => {
                let phase = if record.pid.is_some() {
                    RestartPhase::Probe
                } else {
                    RestartPhase::Delete
                };
                RestartProcess { phase, record: Some(record), ..self }
            },
            Event::Failed(e) => self.ended_with(e),
            _ => self,
        }
    }

    fn after_probe(self, event: Event) -> (next: Self)
        requires
            self@.phase == RestartPhase::Probe,
        ensures
            next@ == self@.after_probe(event),
    {
        proof {
            use_type_invariant(&self);
        }
        match event {
            Event::Alive(true) => self.moved_to(RestartPhase::Stopping),
            Event::Alive(false) => self.moved_to(RestartPhase::Delete),
            Event::Failed(_) => self.moved_to(RestartPhase::Delete),
            _ => self,
        }
    }

    fn after_stopping(self, event: Event) -> (next: Self)
        requires
            self@.phase == RestartPhase::Stopping,
        ensures
            next@ == self@.after_stopping(event),
    {
        proof {
            use_type_invariant(&self);
            self@.stop.lemma_step_keeps_well_formed(event);
        }
        let stop = self.stop.advance(event);
        if !stop.is_finished() {
            RestartProcess { stop, ..self }
        } else {
            match stop.outcome() {
                Some(Err(e)) => RestartProcess {
                    phase: RestartPhase::Done,
                    failure: Some(e),
                    stop,
                    ..self
                },
                _ => RestartProcess { phase: RestartPhase::Settle, stop, ..self },
            }
        }
    }

    fn after_settle(self, event: Event) -> (next: Self)
        requires
            self@.phase == RestartPhase::Settle,
        ensures
            next@ == self@.after_settle(event),
    {
        proof {
            use_type_invariant(&self);
        }
        match event {
            Event::Done => self.moved_to(RestartPhase::Delete),
            _ => self,
        }
    }

    fn after_delete(self, event: Event) -> (next: Self)
        requires
            self@.phase == RestartPhase::Delete,
        ensures
            next@ == self@.after_delete(event),
    {
        proof {
            use_type_invariant(&self);
        }
        match event {
            Event::Deleted(_) => {
                let start = match &self.record {
                    Some(record) => self.start_again(record),
                    None => {
                        return self;
                    },
                };
                RestartProcess { phase: RestartPhase::Starting, start: Some(start), ..self }
            },
            Event::Failed(e) => self.ended_with(e),
            _ => self,
        }
    }

    fn after_starting(self, event: Event, now: Timestamp) -> (next: Self)
        requires
            self@.phase == RestartPhase::Starting,
        ensures
            next@ == self@.after_starting(event, now),
    {
        proof {
            use_type_invariant(&self);
        }
        let start = match self.start {
            Some(start) => start,
            None => {
                return RestartProcess { start: None, ..self };
            },
        };
        proof {
            start@.lemma_step_keeps_well_formed(event, now);
        }
        let start = start.advance_at(event, now);
        if !start.is_finished() {
            RestartProcess { start: Some(start), ..self }
        } else {
            match start.outcome() {
                Some(Err(e)) => RestartProcess {
                    phase: RestartPhase::Done,
                    failure: Some(e),
                    start: Some(start),
                    ..self
                },
                _ => RestartProcess {
                    phase: RestartPhase::Done,
                    failure: None,
                    start: Some(start),
                    ..self
                },
            }
        }
    }

    /// Moves the restart on by one observation, handled at the instant
    /// `now`.
    pub fn advance_at(self, event: Event, now: Timestamp) -> (next: Self)
        ensures
            next@ == self@.step(event, now),
    {
        match self.phase {
            RestartPhase::Find => self.after_find(event),
            RestartPhase::Probe => self.after_probe(event),
            RestartPhase::Stopping => self.after_stopping(event),
            RestartPhase::Settle => self.after_settle(event),
            RestartPhase::Delete => self.after_delete(event),
            RestartPhase::Starting => self.after_starting(event, now),
            RestartPhase::Done => self,
        }
    }

    /// Moves the restart on by one observation, handled now: the state
    /// that follows the event at the instant read from the clock.
    pub fn advance(self, event: Event) -> (next: Self)
        ensures
            exists|now: Timestamp| next@ == #[trigger] self@.step(event, now),
    {
        let now = current_time();
        let ghost before = self@;
        let next = self.advance_at(event, now);
        assert(next@ == before.step(event, now));
        next
    }
}

} // verus!
