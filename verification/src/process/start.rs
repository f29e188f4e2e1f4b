//! The start protocol: from the check of the name to the stored record,
//! with everything that the call created taken back if a step fails.

use crate::clock::current_time;
use crate::database::{ProcessRecord, ProcessStatus, RecordView, Timestamp};
use crate::env::EnvVars;
use crate::error::{Error, ErrorView, optional_error};
use crate::lifecycle::{initial_status, status_after_grace};
use crate::log_rotation::{LogRotator, rotation_due};
use crate::config::LogRotationConfig;
use crate::exchange::{Event, Request, RequestView};
use crate::text::{copy_strings, decimal_digits, push_decimal, strings_view};
use vstd::prelude::*;
use vstd::string::StringExecFns;

verus! {

/// Time between a spawn and the probe that decides the first status.
pub const GRACE_MILLIS: u64 = 200;

/// Where a start stands.
#[derive(Debug, Clone, Copy, PartialEq, Eq, Structural)]
pub enum StartPhase {
    /// The store is asked whether the name is taken.
    CheckName,
    /// The log directory is made sure of.
    EnsureDir,
    /// The size of a log left at the target path is asked for.
    StatLog,
    /// The log left at the target path is rotated.
    Rotate,
    /// The log file is created.
    CreateLog,
    /// The command is spawned.
    Spawn,
    /// The child's handle goes into the tracker.
    Track,
    /// The grace window passes.
    Grace,
    /// The child is probed.
    Probe,
    /// The record is stored.
    Insert,
    /// Rollback: the record is deleted.
    UndoRecord,
    /// Rollback: the log file is removed.
    UndoFile,
    /// Rollback: the log directory is removed if it is empty.
    UndoDir,
    /// The start has ended.
    Done,
}

/// What a start ends with: the message of a success, or the failure.
pub type Outcome = Result<Seq<char>, ErrorView>;

/// Name of the log file of the process `name`.
pub open spec fn log_file_name(name: Seq<char>) -> Seq<char> {
    name + ".log"@
}

/// View of an optional start.
pub open spec fn optional_start(s: Option<StartProcess>) -> Option<StartView> {
    match s {
        Some(s) => Some(s@),
        None => None,
    }
}

/// The message of a successful start.
pub open spec fn started_message(name: Seq<char>, pid: u32, status: ProcessStatus) -> Seq<char> {
    if status == ProcessStatus::Running {
        "Process '"@ + name + "' started with PID "@ + decimal_digits(pid as nat)
    } else {
        "Process '"@ + name + "' started with PID "@ + decimal_digits(pid as nat)
            + " but exited quickly"@
    }
}

/// The failure of a spawn that the operating system refused with `reason`.
pub open spec fn spawn_failure(name: Seq<char>, reason: Seq<char>) -> ErrorView {
    ErrorView::Other("Failed to start process '"@ + name + "': "@ + reason)
}

/// The failure of a spawn that gave no pid.
pub open spec fn missing_pid() -> ErrorView {
    ErrorView::Other("Failed to get process ID"@)
}

/// The warning for a record that the rollback could not delete.
pub open spec fn record_warning(id: Seq<char>, reason: Seq<char>) -> Seq<char> {
    "Failed to rollback database record for process ID "@ + id + ": "@ + reason
}

/// The warning for a log file that the rollback could not remove.
pub open spec fn file_warning(path: Seq<char>, reason: Seq<char>) -> Seq<char> {
    "Failed to rollback log file "@ + path + ": "@ + reason
}

/// The warning for a log directory that the rollback could not remove.
pub open spec fn dir_warning(dir: Seq<char>, reason: Seq<char>) -> Seq<char> {
    "Failed to rollback log directory "@ + dir + ": "@ + reason
}

/// Mathematical value of a [`StartProcess`].
pub struct StartView {
    pub phase: StartPhase,
    pub id: Seq<char>,
    pub name: Seq<char>,
    pub command: Seq<char>,
    pub args: Seq<Seq<char>>,
    pub env_vars: Seq<(Seq<char>, Seq<char>)>,
    pub working_dir: Seq<char>,
    pub log_dir: Seq<char>,
    pub log_path: Seq<char>,
    pub rotation: LogRotationConfig,
    /// The log directory did not exist before this start.
    pub created_log_dir: bool,
    /// This start created the log file.
    pub created_log_file: bool,
    /// This start stored the record.
    pub inserted_record: bool,
    pub pid: Option<u32>,
    pub status: ProcessStatus,
    pub created_at: Timestamp,
    /// The failure that ends the start, once there is one.
    pub failure: Option<ErrorView>,
    /// What the rollback could not take back.
    pub warnings: Seq<Seq<char>>,
}

impl StartView {
    /// The start of the process `name` before its first step.
    pub open spec fn initial(
        id: Seq<char>,
        name: Seq<char>,
        command: Seq<char>,
        args: Seq<Seq<char>>,
        env_vars: Seq<(Seq<char>, Seq<char>)>,
        working_dir: Seq<char>,
        log_dir: Seq<char>,
        log_path: Seq<char>,
        rotation: LogRotationConfig,
    ) -> StartView {
        StartView {
            phase: StartPhase::CheckName,
            id,
            name,
            command,
            args,
            env_vars,
            working_dir,
            log_dir,
            log_path,
            rotation,
            created_log_dir: false,
            created_log_file: false,
            inserted_record: false,
            pid: None,
            status: ProcessStatus::Unknown,
            created_at: Timestamp { secs: 0, nanos: 0 },
            failure: None,
            warnings: Seq::empty(),
        }
    }

    /// What holds of every state that a start reaches.
    pub open spec fn well_formed(self) -> bool {
        match self.phase {
            StartPhase::CheckName | StartPhase::EnsureDir | StartPhase::StatLog
            | StartPhase::Rotate | StartPhase::CreateLog | StartPhase::Spawn => self.failure is None,
            StartPhase::Track | StartPhase::Grace | StartPhase::Probe | StartPhase::Insert => {
                self.failure is None && self.pid is Some
            },
            StartPhase::UndoRecord | StartPhase::UndoFile | StartPhase::UndoDir => {
                self.failure is Some
            },
            StartPhase::Done => self.failure is None ==> self.pid is Some,
        }
    }

    /// The record that the start stores.
    pub open spec fn record(self) -> RecordView {
        RecordView {
            id: self.id,
            name: self.name,
            command: self.command,
            args: self.args,
            env_vars: self.env_vars,
            working_dir: self.working_dir,
            pid: self.pid,
            status: self.status,
            created_at: self.created_at,
            updated_at: self.created_at,
            log_path: self.log_path,
        }
    }

    /// The request that the start asks for in this state.
    pub open spec fn request(self) -> RequestView {
        match self.phase {
            StartPhase::CheckName => RequestView::FindRecord { name: self.name },
            StartPhase::EnsureDir => RequestView::EnsureDir { dir: self.log_dir },
            StartPhase::StatLog => RequestView::FileSize { path: self.log_path },
            StartPhase::Rotate => RequestView::RotateLog { path: self.log_path },
            StartPhase::CreateLog => RequestView::CreateFile {
                dir: self.log_dir,
                path: self.log_path,
            },
            StartPhase::Spawn => RequestView::Spawn {
                command: self.command,
                args: self.args,
                env_vars: self.env_vars,
                working_dir: self.working_dir,
                log_path: self.log_path,
            },
            StartPhase::Track => RequestView::Track { pid: self.pid->0 },
            StartPhase::Grace => RequestView::Sleep { millis: GRACE_MILLIS },
            StartPhase::Probe => RequestView::Probe { pid: self.pid->0 },
            StartPhase::Insert => RequestView::InsertRecord { record: self.record() },
            StartPhase::UndoRecord => RequestView::DeleteRecordById { id: self.id },
            StartPhase::UndoFile => RequestView::RemoveFile { path: self.log_path },
            StartPhase::UndoDir => RequestView::RemoveDirIfEmpty { dir: self.log_dir },
            StartPhase::Done => RequestView::Finished,
        }
    }

    /// The phase of the rollback that comes after the record was seen to:
    /// the log file if this start created it, else what comes after.
    pub open spec fn undo_after_record(self) -> StartPhase {
        if self.created_log_file {
            StartPhase::UndoFile
        } else {
            self.undo_after_file()
        }
    }

    /// The phase of the rollback that comes after the log file was seen to:
    /// the log directory if this start created it, else the end.
    pub open spec fn undo_after_file(self) -> StartPhase {
        if self.created_log_dir {
            StartPhase::UndoDir
        } else {
            StartPhase::Done
        }
    }

    /// The first phase of the rollback: what this start created is taken
    /// back in reverse order, the record first.
    pub open spec fn undo_first(self) -> StartPhase {
        if self.inserted_record {
            StartPhase::UndoRecord
        } else {
            self.undo_after_record()
        }
    }

    /// The start ends at once with `failure`; there is nothing to take back.
    pub open spec fn ended_with(self, failure: ErrorView) -> StartView {
        StartView { phase: StartPhase::Done, failure: Some(failure), ..self }
    }

    /// The start fails with `failure` and begins to take back what it
    /// created.
    pub open spec fn rolled_back(self, failure: ErrorView) -> StartView {
        StartView { phase: self.undo_first(), failure: Some(failure), ..self }
    }

    /// After the store has answered whether the name is taken.
    pub open spec fn after_check_name(self, event: Event) -> StartView {
        match event {
            Event::Record(Some(_)) => self.ended_with(ErrorView::ProcessAlreadyExists(self.name)),
            Event::Record(None) => StartView { phase: StartPhase::EnsureDir, ..self },
            Event::Failed(e) => self.ended_with(e@),
            _ => self,
        }
    }

    /// After the log directory was made sure of.
    pub open spec fn after_ensure_dir(self, event: Event) -> StartView {
        match event {
            Event::DirReady { existed } => StartView {
                phase: StartPhase::StatLog,
                created_log_dir: !existed,
                ..self
            },
            Event::Failed(e) => self.ended_with(e@),
            _ => self,
        }
    }

    /// After the size of a log left at the target path is known: such a log
    /// is rotated first if the policy asks for it.
    pub open spec fn after_stat_log(self, event: Event) -> StartView {
        match event {
            Event::Size(size) => StartView {
                phase: if rotation_due(self.rotation, size) {
                    StartPhase::Rotate
                } else {
                    StartPhase::CreateLog
                },
                ..self
            },
            Event::Failed(e) => self.rolled_back(e@),
            _ => self,
        }
    }

    /// After the rotation of the log left at the target path.
    pub open spec fn after_rotate(self, event: Event) -> StartView {
        match event {
            Event::Done => StartView { phase: StartPhase::CreateLog, ..self },
            Event::Failed(e) => self.rolled_back(e@),
            _ => self,
        }
    }

    /// After the creation of the log file.
    pub open spec fn after_create_log(self, event: Event) -> StartView {
        match event {
            Event::Done => StartView { phase: StartPhase::Spawn, created_log_file: true, ..self },
            Event::Failed(e) => self.rolled_back(e@),
            _ => self,
        }
    }

    /// After the spawn. A failure of the filesystem, met when the log file
    /// was opened for the child, is reported as it is; a refusal of the
    /// spawn itself is reported as a failure to start the process.
    pub open spec fn after_spawn(self, event: Event) -> StartView {
        match event {
            Event::Spawned { pid: Some(pid) } => StartView {
                phase: StartPhase::Track,
                pid: Some(pid),
                ..self
            },
            Event::Spawned { pid: None } => self.rolled_back(missing_pid()),
            Event::Failed(e) => if e is Io {
                self.rolled_back(e@)
            } else {
                self.rolled_back(spawn_failure(self.name, e@.detail()))
            },
            _ => self,
        }
    }

    /// After the child's handle went into the tracker, and after the grace
    /// window.
    pub open spec fn after_wait(self, event: Event, then: StartPhase) -> StartView {
        match event {
            Event::Done => StartView { phase: then, ..self },
            _ => self,
        }
    }

    /// The first status is decided from the probe result `alive`, and the
    /// record gets its instant.
    pub open spec fn probed(self, alive: bool, now: Timestamp) -> StartView {
        StartView {
            phase: StartPhase::Insert,
            status: initial_status(alive),
            created_at: now,
            ..self
        }
    }

    /// After the probe that follows the grace window. A probe that failed
    /// counts as "not alive".
    pub open spec fn after_probe(self, event: Event, now: Timestamp) -> StartView {
        match event {
            Event::Alive(alive) => self.probed(alive, now),
            Event::Failed(_) => self.probed(false, now),
            _ => self,
        }
    }

    /// After the store was asked to take the record.
    pub open spec fn after_insert(self, event: Event) -> StartView {
        match event {
            Event::Done => StartView { phase: StartPhase::Done, inserted_record: true, ..self },
            Event::Failed(e) => self.rolled_back(e@),
            _ => self,
        }
    }

    /// After the rollback asked for the record to be deleted. A failure
    /// becomes a warning and the rollback goes on.
    pub open spec fn after_undo_record(self, event: Event) -> StartView {
        match event {
            Event::Deleted(_) => StartView { phase: self.undo_after_record(), ..self },
            Event::Failed(e) => StartView {
                phase: self.undo_after_record(),
                warnings: self.warnings.push(record_warning(self.id, e@.detail())),
                ..self
            },
            _ => self,
        }
    }

    /// After the rollback asked for the log file to be removed. A failure
    /// becomes a warning and the rollback goes on.
    pub open spec fn after_undo_file(self, event: Event) -> StartView {
        match event {
            Event::Done => StartView { phase: self.undo_after_file(), ..self },
            Event::Failed(e) => StartView {
                phase: self.undo_after_file(),
                warnings: self.warnings.push(file_warning(self.log_path, e@.detail())),
                ..self
            },
            _ => self,
        }
    }

    /// After the rollback asked for the log directory to be removed. A
    /// failure becomes a warning.
    pub open spec fn after_undo_dir(self, event: Event) -> StartView {
        match event {
            Event::Done => StartView { phase: StartPhase::Done, ..self },
            Event::Failed(e) => StartView {
                phase: StartPhase::Done,
                warnings: self.warnings.push(dir_warning(self.log_dir, e@.detail())),
                ..self
            },
            _ => self,
        }
    }

    /// The state that follows `event`; `now` is the instant at which the
    /// event is handled. An event that is no answer to the pending request
    /// changes nothing.
    pub open spec fn step(self, event: Event, now: Timestamp) -> StartView {
        match self.phase {
            StartPhase::CheckName => self.after_check_name(event),
            StartPhase::EnsureDir => self.after_ensure_dir(event),
            StartPhase::StatLog => self.after_stat_log(event),
            StartPhase::Rotate => self.after_rotate(event),
            StartPhase::CreateLog => self.after_create_log(event),
            StartPhase::Spawn => self.after_spawn(event),
            StartPhase::Track => self.after_wait(event, StartPhase::Grace),
            StartPhase::Grace => self.after_wait(event, StartPhase::Probe),
            StartPhase::Probe => self.after_probe(event, now),
            StartPhase::Insert => self.after_insert(event),
            StartPhase::UndoRecord => self.after_undo_record(event),
            StartPhase::UndoFile => self.after_undo_file(event),
            StartPhase::UndoDir => self.after_undo_dir(event),
            StartPhase::Done => self,
        }
    }

    /// A step keeps a state well formed.
    pub proof fn lemma_step_keeps_well_formed(self, event: Event, now: Timestamp)
        requires
            self.well_formed(),
        ensures
            self.step(event, now).well_formed(),
    {
    }

    /// What the start ended with, once it has ended.
    pub open spec fn outcome(self) -> Option<Outcome> {
        if self.phase == StartPhase::Done {
            Some(
                match self.failure {
                    Some(e) => Err(e),
                    None => Ok(started_message(self.name, self.pid->0, self.status)),
                },
            )
        } else {
            None
        }
    }
}

/// One start of a process, as a protocol.
#[derive(Debug)]
pub struct StartProcess {
    phase: StartPhase,
    id: String,
    name: String,
    command: String,
    args: Vec<String>,
    env_vars: EnvVars,
    working_dir: String,
    log_dir: String,
    log_path: String,
    rotator: LogRotator,
    created_log_dir: bool,
    created_log_file: bool,
    inserted_record: bool,
    pid: Option<u32>,
    status: ProcessStatus,
    created_at: Timestamp,
    failure: Option<Error>,
    warnings: Vec<String>,
}

impl View for StartProcess {
    type V = StartView;

    closed spec fn view(&self) -> StartView {
        StartView {
            phase: self.phase,
            id: self.id@,
            name: self.name@,
            command: self.command@,
            args: strings_view(self.args@),
            env_vars: self.env_vars.pairs(),
            working_dir: self.working_dir@,
            log_dir: self.log_dir@,
            log_path: self.log_path@,
            rotation: self.rotator.policy(),
            created_log_dir: self.created_log_dir,
            created_log_file: self.created_log_file,
            inserted_record: self.inserted_record,
            pid: self.pid,
            status: self.status,
            created_at: self.created_at,
            failure: optional_error(self.failure),
            warnings: strings_view(self.warnings@),
        }
    }
}

fn warning(lead: &str, subject: &str, reason: &str) -> (text: String)
    ensures
        text@ == lead@ + subject@ + ": "@ + reason@,
{
    let mut text = String::from_str(lead);
    text.append(subject);
    text.append(": ");
    text.append(reason);
    text
}

impl StartProcess {
    #[verifier::type_invariant]
    spec fn inv(self) -> bool {
        self@.well_formed()
    }

    /// The start of the process `name`, before its first step. `id` is the
    /// identifier of the record to be, `log_path` the path of the log file
    /// in `log_dir`, `rotator` the rotation in force.
    pub fn new(
        id: String,
        name: String,
        command: String,
        args: Vec<String>,
        env_vars: EnvVars,
        working_dir: String,
        log_dir: String,
        log_path: String,
        rotator: LogRotator,
    ) -> (start: Self)
        ensures
            start@ == StartView::initial(
                id@,
                name@,
                command@,
                strings_view(args@),
                env_vars.pairs(),
                working_dir@,
                log_dir@,
                log_path@,
                rotator.policy(),
            ),
    {
        let start = StartProcess {
            phase: StartPhase::CheckName,
            id,
            name,
            command,
            args,
            env_vars,
            working_dir,
            log_dir,
            log_path,
            rotator,
            created_log_dir: false,
            created_log_file: false,
            inserted_record: false,
            pid: None,
            status: ProcessStatus::Unknown,
            created_at: Timestamp { secs: 0, nanos: 0 },
            failure: None,
            warnings: Vec::new(),
        };
        assert(strings_view(start.warnings@) =~= Seq::<Seq<char>>::empty());
        start
    }

    /// The name of the log file of the process `name`.
    pub fn log_file_name(name: &str) -> (file: String)
        ensures
            file@ == log_file_name(name@),
    {
        let mut file = String::from_str(name);
        file.append(".log");
        file
    }

    /// Whether the start has ended.
    pub fn is_finished(&self) -> (done: bool)
        ensures
            done == (self@.phase == StartPhase::Done),
            done == (self@.request() == RequestView::Finished),
            done == self@.outcome() is Some,
    {
        match self.phase {
            StartPhase::Done => true,
            _ => false,
        }
    }

    /// Where the start stands.
    pub fn phase(&self) -> (phase: StartPhase)
        ensures
            phase == self@.phase,
    {
        self.phase
    }

    /// What the rollback could not take back, one sentence each.
    pub fn warnings(&self) -> (warnings: &Vec<String>)
        ensures
            strings_view(warnings@) == self@.warnings,
    {
        &self.warnings
    }

    fn record(&self) -> (record: ProcessRecord)
        ensures
            record@ == self@.record(),
    {
        ProcessRecord {
            id: self.id.clone(),
            name: self.name.clone(),
            command: self.command.clone(),
            args: copy_strings(&self.args),
            env_vars: self.env_vars.clone(),
            working_dir: self.working_dir.clone(),
            pid: self.pid,
            status: self.status,
            created_at: self.created_at,
            updated_at: self.created_at,
            log_path: self.log_path.clone(),
        }
    }

    /// The request to carry out next.
    pub fn request(&self) -> (request: Request)
        ensures
            request@ == self@.request(),
    {
        proof {
            use_type_invariant(self);
        }
        match self.phase {
            StartPhase::CheckName => Request::FindRecord { name: self.name.clone() },
            StartPhase::EnsureDir => Request::EnsureDir { dir: self.log_dir.clone() },
            StartPhase::StatLog => Request::FileSize { path: self.log_path.clone() },
            StartPhase::Rotate => Request::RotateLog { path: self.log_path.clone() },
            StartPhase::CreateLog => Request::CreateFile {
                dir: self.log_dir.clone(),
                path: self.log_path.clone(),
            },
            StartPhase::Spawn => Request::Spawn {
                command: self.command.clone(),
                args: copy_strings(&self.args),
                env_vars: self.env_vars.clone(),
                working_dir: self.working_dir.clone(),
                log_path: self.log_path.clone(),
            },
            StartPhase::Track => Request::Track { pid: self.pid.unwrap() },
            StartPhase::Grace => Request::Sleep { millis: GRACE_MILLIS },
            StartPhase::Probe => Request::Probe { pid: self.pid.unwrap() },
            StartPhase::Insert => Request::InsertRecord { record: self.record() },
            StartPhase::UndoRecord => Request::DeleteRecordById { id: self.id.clone() },
            StartPhase::UndoFile => Request::RemoveFile { path: self.log_path.clone() },
            StartPhase::UndoDir => Request::RemoveDirIfEmpty { dir: self.log_dir.clone() },
            StartPhase::Done => Request::Finished,
        }
    }

    /// What the start ended with, once it has ended: the message of a
    /// success, or the failure.
    pub fn outcome(&self) -> (outcome: Option<Result<String, Error>>)
        ensures
            match outcome {
                Some(Ok(message)) => self@.outcome() == Some(Ok::<Seq<char>, ErrorView>(message@)),
                Some(Err(e)) => self@.outcome() == Some(Err::<Seq<char>, ErrorView>(e@)),
                None => self@.outcome() is None,
            },
    {
        proof {
            use_type_invariant(self);
        }
        match self.phase {
            StartPhase::Done => match &self.failure {
                Some(e) => Some(Err(e.clone())),
                None => {
                    let mut message = String::from_str("Process '");
                    message.append(self.name.as_str());
                    message.append("' started with PID ");
                    push_decimal(&mut message, self.pid.unwrap() as u64);
                    match self.status {
                        ProcessStatus::Running => {},
                        _ => {
                            message.append(" but exited quickly");
                        },
                    }
                    assert(message@ =~= started_message(
                        self@.name,
                        self@.pid->0,
                        self@.status,
                    ));
                    Some(Ok(message))
                },
            },
            _ => None,
        }
    }

    fn undo_after_file(&self) -> (phase: StartPhase)
        ensures
            phase == self@.undo_after_file(),
    {
        if self.created_log_dir {
            StartPhase::UndoDir
        } else {
            StartPhase::Done
        }
    }

    fn undo_after_record(&self) -> (phase: StartPhase)
        ensures
            phase == self@.undo_after_record(),
    {
        if self.created_log_file {
            StartPhase::UndoFile
        } else {
            self.undo_after_file()
        }
    }

    fn undo_first(&self) -> (phase: StartPhase)
        ensures
            phase == self@.undo_first(),
    {
        if self.inserted_record {
            StartPhase::UndoRecord
        } else {
            self.undo_after_record()
        }
    }

    fn ended_with(self, failure: Error) -> (next: Self)
        ensures
            next@ == self@.ended_with(failure@),
    {
        StartProcess { phase: StartPhase::Done, failure: Some(failure), ..self }
    }

    fn rolled_back(self, failure: Error) -> (next: Self)
        ensures
            next@ == self@.rolled_back(failure@),
    {
        let phase = self.undo_first();
        StartProcess { phase, failure: Some(failure), ..self }
    }

    fn moved_to(self, phase: StartPhase) -> (next: Self)
        requires
            (StartView { phase, ..self@ }).well_formed(),
        ensures
            next@ == (StartView { phase, ..self@ }),
    {
        StartProcess { phase, ..self }
    }

    fn warned(self, phase: StartPhase, text: String) -> (next: Self)
        requires
            (StartView { phase, ..self@ }).well_formed(),
        ensures
            next@ == (StartView { phase, warnings: self@.warnings.push(text@), ..self@ }),
    {
        let ghost before = strings_view(self.warnings@);
        let mut warnings = self.warnings;
        warnings.push(text);
        assert(strings_view(warnings@) =~= before.push(text@));
        StartProcess { phase, warnings, ..self }
    }

    fn after_check_name(self, event: Event) -> (next: Self)
        requires
            self@.phase == StartPhase::CheckName,
        ensures
            next@ == self@.after_check_name(event),
    {
        match event {
            Event::Record(Some(_)) => {
                let name = self.name.clone();
                self.ended_with(Error::ProcessAlreadyExists(name))
            },
            Event::Record(None) => {
                proof {
                    use_type_invariant(&self);
                }
                self.moved_to(StartPhase::EnsureDir)
            },
            Event::Failed(e) => self.ended_with(e),
            _ => self,
        }
    }

    fn after_ensure_dir(self, event: Event) -> (next: Self)
        requires
            self@.phase == StartPhase::EnsureDir,
        ensures
            next@ == self@.after_ensure_dir(event),
    {
        proof {
            use_type_invariant(&self);
        }
        match event {
            Event::DirReady { existed } => StartProcess {
                phase: StartPhase::StatLog,
                created_log_dir: !existed,
                ..self
            },
            Event::Failed(e) => self.ended_with(e),
            _ => self,
        }
    }

    fn after_stat_log(self, event: Event) -> (next: Self)
        requires
            self@.phase == StartPhase::StatLog,
        ensures
            next@ == self@.after_stat_log(event),
    {
        proof {
            use_type_invariant(&self);
        }
        match event {
            Event::Size(size) => {
                if self.rotator.needs_rotation(size) {
                    self.moved_to(StartPhase::Rotate)
                } else {
                    self.moved_to(StartPhase::CreateLog)
                }
            },
            Event::Failed(e) => self.rolled_back(e),
            _ => self,
        }
    }

    fn after_rotate(self, event: Event) -> (next: Self)
        requires
            self@.phase == StartPhase::Rotate,
        ensures
            next@ == self@.after_rotate(event),
    {
        proof {
            use_type_invariant(&self);
        }
        match event {
            Event::Done => self.moved_to(StartPhase::CreateLog),
            Event::Failed(e) => self.rolled_back(e),
            _ => self,
        }
    }

    fn after_create_log(self, event: Event) -> (next: Self)
        requires
            self@.phase == StartPhase::CreateLog,
        ensures
            next@ == self@.after_create_log(event),
    {
        proof {
            use_type_invariant(&self);
        }
        match event {
            Event::Done => StartProcess {
                phase: StartPhase::Spawn,
                created_log_file: true,
                ..self
            },
            Event::Failed(e) => self.rolled_back(e),
            _ => self,
        }
    }

    fn after_spawn(self, event: Event) -> (next: Self)
        requires
            self@.phase == StartPhase::Spawn,
        ensures
            next@ == self@.after_spawn(event),
    {
        proof {
            use_type_invariant(&self);
        }
        match event {
            Event::Spawned { pid: Some(pid) } => StartProcess {
                phase: StartPhase::Track,
                pid: Some(pid),
                ..self
            },
            Event::Spawned { pid: None } => {
                self.rolled_back(Error::Other(String::from_str("Failed to get process ID")))
            },
            Event::Failed(e) => match e {
                Error::Io(_) => self.rolled_back(e),
                _ => {
                    let mut text = String::from_str("Failed to start process '");
                    text.append(self.name.as_str());
                    text.append("': ");
                    text.append(e.detail().as_str());
                    self.rolled_back(Error::Other(text))
                },
            },
            _ => self,
        }
    }

    fn after_wait(self, event: Event, then: StartPhase) -> (next: Self)
        requires
            self@.phase == StartPhase::Track || self@.phase == StartPhase::Grace,
            then == StartPhase::Grace || then == StartPhase::Probe,
        ensures
            next@ == self@.after_wait(event, then),
    {
        proof {
            use_type_invariant(&self);
        }
        match event {
            Event::Done => self.moved_to(then),
            _ => self,
        }
    }

    fn after_probe(self, event: Event, now: Timestamp) -> (next: Self)
        requires
            self@.phase == StartPhase::Probe,
        ensures
            next@ == self@.after_probe(event, now),
    {
        proof {
            use_type_invariant(&self);
        }
        let alive = match event {
            Event::Alive(alive) => alive,
            Event::Failed(_) => false,
            _ => {
                return self;
            },
        };
        StartProcess {
            phase: StartPhase::Insert,
            status: status_after_grace(alive),
            created_at: now,
            ..self
        }
    }

    fn after_insert(self, event: Event) -> (next: Self)
        requires
            self@.phase == StartPhase::Insert,
        ensures
            next@ == self@.after_insert(event),
    {
        proof {
            use_type_invariant(&self);
        }
        match event {
            Event::Done => StartProcess {
                phase: StartPhase::Done,
                inserted_record: true,
                ..self
            },
            Event::Failed(e) => self.rolled_back(e),
            _ => self,
        }
    }

    fn after_undo_record(self, event: Event) -> (next: Self)
        requires
            self@.phase == StartPhase::UndoRecord,
        ensures
            next@ == self@.after_undo_record(event),
    {
        proof {
            use_type_invariant(&self);
        }
        match event {
            Event::Deleted(_) => {
                let phase = self.undo_after_record();
                self.moved_to(phase)
            },
            Event::Failed(e) => {
                let phase = self.undo_after_record();
                let text = warning(
                    "Failed to rollback database record for process ID ",
                    self.id.as_str(),
                    e.detail().as_str(),
                );
                self.warned(phase, text)
            },
            _ => self,
        }
    }

    fn after_undo_file(self, event: Event) -> (next: Self)
        requires
            self@.phase == StartPhase::UndoFile,
        ensures
            next@ == self@.after_undo_file(event),
    {
        proof {
            use_type_invariant(&self);
        }
        match event {
            Event::Done => {
                let phase = self.undo_after_file();
                self.moved_to(phase)
            },
            Event::Failed(e) => {
                let phase = self.undo_after_file();
                let text = warning(
                    "Failed to rollback log file ",
                    self.log_path.as_str(),
                    e.detail().as_str(),
                );
                self.warned(phase, text)
            },
            _ => self,
        }
    }

    fn after_undo_dir(self, event: Event) -> (next: Self)
        requires
            self@.phase == StartPhase::UndoDir,
        ensures
            next@ == self@.after_undo_dir(event),
    {
        proof {
            use_type_invariant(&self);
        }
        match event {
            Event::Done => self.moved_to(StartPhase::Done),
            Event::Failed(e) => {
                let text = warning(
                    "Failed to rollback log directory ",
                    self.log_dir.as_str(),
                    e.detail().as_str(),
                );
                self.warned(StartPhase::Done, text)
            },
            _ => self,
        }
    }

    /// Moves the start on by one observation, handled at the instant `now`.
    pub fn advance_at(self, event: Event, now: Timestamp) -> (next: Self)
        ensures
            next@ == self@.step(event, now),
    {
        match self.phase {
            StartPhase::CheckName => self.after_check_name(event),
            StartPhase::EnsureDir => self.after_ensure_dir(event),
            StartPhase::StatLog => self.after_stat_log(event),
            StartPhase::Rotate => self.after_rotate(event),
            StartPhase::CreateLog => self.after_create_log(event),
            StartPhase::Spawn => self.after_spawn(event),
            StartPhase::Track => self.after_wait(event, StartPhase::Grace),
            StartPhase::Grace => self.after_wait(event, StartPhase::Probe),
            StartPhase::Probe => self.after_probe(event, now),
            StartPhase::Insert => self.after_insert(event),
            StartPhase::UndoRecord => self.after_undo_record(event),
            StartPhase::UndoFile => self.after_undo_file(event),
            StartPhase::UndoDir => self.after_undo_dir(event),
            StartPhase::Done => self,
        }
    }

    /// Moves the start on by one observation, handled now: the state that
    /// follows the event at the instant read from the clock.
    pub fn advance(self, event: Event) -> (next: Self)
        ensures
            exists|now: Timestamp| next@ == #[trigger] self@.step(event, now),
    {
        let now = current_time();
        let ghost before = self@;
        let next = self.advance_at(event, now);
        assert(next@ == before.step(event, now));
        next
    }
}

} // verus!
