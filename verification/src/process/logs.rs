//! The log protocols: the tail of a process's log, its rotated logs, a
//! rotation on demand, and the state of its rotation.

use crate::config::LogRotationConfig;
use crate::error::{Error, ErrorView};
use crate::log_rotation::{
    LogRotator,
    backup_paths,
    log_location,
    rotated_paths,
    rotation_due,
};
use crate::exchange::{Event, Request, RequestView};
use crate::error::optional_error;
use crate::text::{copy_strings, decimal_digits, push_decimal, strings_view, tail, tail_of};
use vstd::prelude::*;
use vstd::string::StringExecFns;

verus! {

/// What is asked of a process's logs.
#[derive(Debug, Clone, Copy, PartialEq, Eq)]
pub enum LogTask {
    /// The log, or its last `lines` lines.
    Tail { lines: Option<usize> },
    /// The rotated logs, newest first, each under a heading.
    Rotated,
    /// A rotation of the log, whatever its size.
    Rotate,
    /// A report on the log's rotation.
    Status,
}

/// What a log protocol hands out.
#[derive(Debug, PartialEq, Eq)]
pub enum LogOutput {
    Text(String),
    Files(Vec<String>),
}

/// Mathematical value of a [`LogOutput`].
pub enum LogOutputView {
    Text(Seq<char>),
    Files(Seq<Seq<char>>),
}

impl View for LogOutput {
    type V = LogOutputView;

    open spec fn view(&self) -> LogOutputView {
        match self {
            LogOutput::Text(text) => LogOutputView::Text(text@),
            LogOutput::Files(files) => LogOutputView::Files(strings_view(files@)),
        }
    }
}

/// Where a log protocol stands.
#[derive(Debug, Clone, Copy, PartialEq, Eq, Structural)]
pub enum LogsPhase {
    /// The record is looked up.
    Find,
    /// The log is read.
    ReadLive,
    /// The log is rotated.
    Rotate,
    /// The size of the log is asked for.
    StatLive,
    /// The backup at hand is looked for.
    StatBackup,
    /// The rotated log at hand is read.
    ReadBackup,
    /// The protocol has ended.
    Done,
}

/// The log as handed out: whole, or its last `lines` lines.
pub open spec fn log_text(content: Seq<char>, lines: Option<usize>) -> Seq<char> {
    match lines {
        Some(count) => tail_of(content, count as nat),
        None => content,
    }
}

/// The failure of a log that could not be read, for the reason `reason`.
pub open spec fn read_failure(reason: Seq<char>) -> ErrorView {
    ErrorView::Other("Failed to read log file: "@ + reason)
}

/// The message of a rotation on demand.
pub open spec fn rotation_message(name: Seq<char>) -> Seq<char> {
    "Log rotation completed for process '"@ + name + "'"@
}

/// A rotated log under its heading.
pub open spec fn headed(path: Seq<char>, content: Seq<char>) -> Seq<char> {
    "=== "@ + path + " ===\n"@ + content
}

/// The report on the rotation of the log at `path`, given the size of its
/// file if it exists and the number of its rotated files.
pub open spec fn rotation_report(
    path: Seq<char>,
    size: Option<u64>,
    rotation: LogRotationConfig,
    rotated: nat,
) -> Seq<char> {
    "Log file: "@ + path + "\nCurrent size: "@ + decimal_digits(
        match size {
            Some(s) => s as nat,
            None => 0,
        },
    ) + " bytes\nNeeds rotation: "@ + (if rotation_due(rotation, size) {
        "Yes"@
    } else {
        "No"@
    }) + "\nRotated files: "@ + decimal_digits(rotated)
}

/// Mathematical value of a [`LogOperation`].
pub struct LogsView {
    pub phase: LogsPhase,
    pub task: LogTask,
    pub name: Seq<char>,
    pub rotation: LogRotationConfig,
    pub log_path: Seq<char>,
    /// Size of the log file, if it exists.
    pub size: Option<u64>,
    /// The paths at which backups are looked for.
    pub candidates: Seq<Seq<char>>,
    /// Which of them exist, as far as they were looked for.
    pub present: Seq<bool>,
    /// The rotated logs to read.
    pub files: Seq<Seq<char>>,
    /// The candidate or the rotated log at hand.
    pub index: nat,
    /// The rotated logs read so far, under their headings.
    pub logs: Seq<Seq<char>>,
    /// The text to hand out.
    pub text: Seq<char>,
    pub failure: Option<ErrorView>,
}

impl LogsView {
    /// The protocol for `task` on the logs of `name` before its first step.
    pub open spec fn initial(task: LogTask, name: Seq<char>, rotation: LogRotationConfig) -> LogsView {
        LogsView {
            phase: LogsPhase::Find,
            task,
            name,
            rotation,
            log_path: Seq::empty(),
            size: None,
            candidates: Seq::empty(),
            present: Seq::empty(),
            files: Seq::empty(),
            index: 0,
            logs: Seq::empty(),
            text: Seq::empty(),
            failure: None,
        }
    }

    /// What holds of every state that the protocol reaches.
    pub open spec fn well_formed(self) -> bool {
        match self.phase {
            LogsPhase::StatBackup => {
                &&& self.failure is None
                &&& self.index < self.candidates.len()
                &&& self.present.len() == self.index
                &&& log_location(self.log_path) matches Ok((dir, stem)) && self.candidates
                    == backup_paths(dir, stem, 0, self.rotation.max_files as nat)
                &&& self.task == LogTask::Rotated || self.task == LogTask::Status
            },
            LogsPhase::ReadBackup => {
                &&& self.failure is None
                &&& self.index < self.files.len()
                &&& self.task == LogTask::Rotated
            },
            LogsPhase::StatLive => self.failure is None && self.task == LogTask::Status,
            LogsPhase::Done => true,
            _ => self.failure is None,
        }
    }

    /// The request that the protocol asks for in this state.
    pub open spec fn request(self) -> RequestView {
        match self.phase {
            LogsPhase::Find => RequestView::FindRecord { name: self.name },
            LogsPhase::ReadLive => RequestView::ReadFile { path: self.log_path },
            LogsPhase::Rotate => RequestView::RotateLog { path: self.log_path },
            LogsPhase::StatLive => RequestView::FileSize { path: self.log_path },
            LogsPhase::StatBackup => RequestView::FileSize {
                path: self.candidates[self.index as int],
            },
            LogsPhase::ReadBackup => RequestView::ReadFile { path: self.files[self.index as int] },
            LogsPhase::Done => RequestView::Finished,
        }
    }

    /// The protocol ends at once with `failure`.
    pub open spec fn ended_with(self, failure: ErrorView) -> LogsView {
        LogsView { phase: LogsPhase::Done, failure: Some(failure), ..self }
    }

    /// Every candidate was looked for. A report is made from what was
    /// found; the rotated logs that exist are read, newest first.
    pub open spec fn scanned(self) -> LogsView {
        match log_location(self.log_path) {
            Err(e) => self.ended_with(e),
            Ok((dir, stem)) => {
                let files = rotated_paths(
                    dir,
                    stem,
                    self.present,
                    0,
                    self.rotation.max_files as nat,
                );
                if self.task == LogTask::Status {
                    LogsView {
                        phase: LogsPhase::Done,
                        files,
                        text: rotation_report(self.log_path, self.size, self.rotation, files.len()),
                        ..self
                    }
                } else if files.len() == 0 {
                    LogsView { phase: LogsPhase::Done, files, index: 0, ..self }
                } else {
                    LogsView { phase: LogsPhase::ReadBackup, files, index: 0, ..self }
                }
            },
        }
    }

    /// The backups are looked for, those numbered 1 to `max_files`.
    pub open spec fn scanning(self) -> LogsView {
        match log_location(self.log_path) {
            Err(e) => self.ended_with(e),
            Ok((dir, stem)) => {
                let candidates = backup_paths(dir, stem, 0, self.rotation.max_files as nat);
                let begun = LogsView { candidates, present: Seq::empty(), index: 0, ..self };
                if candidates.len() == 0 {
                    begun.scanned()
                } else {
                    LogsView { phase: LogsPhase::StatBackup, ..begun }
                }
            },
        }
    }

    /// After the lookup: what comes next depends on the task.
    pub open spec fn after_find(self, event: Event) -> LogsView {
        match event {
            Event::Record(None) => self.ended_with(ErrorView::ProcessNotFound(self.name)),
            Event::Record(Some(record)) => {
                let found = LogsView { log_path: record.log_path@, ..self };
                match self.task {
                    LogTask::Tail { .. } => LogsView { phase: LogsPhase::ReadLive, ..found },
                    LogTask::Rotate => LogsView { phase: LogsPhase::Rotate, ..found },
                    LogTask::Status => LogsView { phase: LogsPhase::StatLive, ..found },
                    LogTask::Rotated => found.scanning(),
                }
            },
            Event::Failed(e) => self.ended_with(e@),
            _ => self,
        }
    }

    /// After the log was read.
    pub open spec fn after_read_live(self, event: Event) -> LogsView {
        match event {
            Event::Content(content) => LogsView {
                phase: LogsPhase::Done,
                text: match self.task {
                    LogTask::Tail { lines } => log_text(content@, lines),
                    _ => content@,
                },
                ..self
            },
            Event::Failed(e) => self.ended_with(read_failure(e@.detail())),
            _ => self,
        }
    }

    /// After the rotation.
    pub open spec fn after_rotate(self, event: Event) -> LogsView {
        match event {
            Event::Done => LogsView {
                phase: LogsPhase::Done,
                text: rotation_message(self.name),
                ..self
            },
            Event::Failed(e) => self.ended_with(e@),
            _ => self,
        }
    }

    /// After the size of the log is known.
    pub open spec fn after_stat_live(self, event: Event) -> LogsView {
        match event {
            Event::Size(size) => (LogsView { size, ..self }).scanning(),
            Event::Failed(e) => self.ended_with(e@),
            _ => self,
        }
    }

    /// The backup at hand was found to exist or not.
    pub open spec fn noted(self, exists: bool) -> LogsView {
        let next = LogsView { present: self.present.push(exists), index: self.index + 1, ..self };
        if next.index >= next.candidates.len() {
            next.scanned()
        } else {
            next
        }
    }

    /// After the backup at hand was looked for. A failure counts as "not
    /// there".
    pub open spec fn after_stat_backup(self, event: Event) -> LogsView {
        match event {
            Event::Size(size) => self.noted(size is Some),
            Event::Failed(_) => self.noted(false),
            _ => self,
        }
    }

    /// The protocol turns to the next rotated log, or ends.
    pub open spec fn next_file(self) -> LogsView {
        if self.index + 1 >= self.files.len() {
            LogsView { phase: LogsPhase::Done, index: self.index + 1, ..self }
        } else {
            LogsView { index: self.index + 1, ..self }
        }
    }

    /// After the rotated log at hand was read. One that cannot be read is
    /// left out.
    pub open spec fn after_read_backup(self, event: Event) -> LogsView {
        match event {
            Event::Content(content) => (LogsView {
                logs: self.logs.push(headed(self.files[self.index as int], content@)),
                ..self
            }).next_file(),
            Event::Failed(_) => self.next_file(),
            _ => self,
        }
    }

    /// The state that follows `event`. An event that is no answer to the
    /// pending request changes nothing.
    pub open spec fn step(self, event: Event) -> LogsView {
        match self.phase {
            LogsPhase::Find => self.after_find(event),
            LogsPhase::ReadLive => self.after_read_live(event),
            LogsPhase::Rotate => self.after_rotate(event),
            LogsPhase::StatLive => self.after_stat_live(event),
            LogsPhase::StatBackup => self.after_stat_backup(event),
            LogsPhase::ReadBackup => self.after_read_backup(event),
            LogsPhase::Done => self,
        }
    }

    /// What the protocol ended with, once it has ended: the rotated logs
    /// for that task, a text for any other, or the failure.
    pub open spec fn outcome(self) -> Option<Result<LogOutputView, ErrorView>> {
        if self.phase == LogsPhase::Done {
            Some(
                match self.failure {
                    Some(e) => Err(e),
                    None => Ok(
                        if self.task == LogTask::Rotated {
                            LogOutputView::Files(self.logs)
                        } else {
                            LogOutputView::Text(self.text)
                        },
                    ),
                },
            )
        } else {
            None
        }
    }
}

/// One question to the logs of a process, as a protocol.
#[derive(Debug)]
pub struct LogOperation {
    phase: LogsPhase,
    task: LogTask,
    name: String,
    rotator: LogRotator,
    log_path: String,
    size: Option<u64>,
    candidates: Vec<String>,
    present: Vec<bool>,
    files: Vec<String>,
    index: usize,
    logs: Vec<String>,
    text: String,
    failure: Option<Error>,
}

impl View for LogOperation {
    type V = LogsView;

    closed spec fn view(&self) -> LogsView {
        LogsView {
            phase: self.phase,
            task: self.task,
            name: self.name@,
            rotation: self.rotator.policy(),
            log_path: self.log_path@,
            size: self.size,
            candidates: strings_view(self.candidates@),
            present: self.present@,
            files: strings_view(self.files@),
            index: self.index as nat,
            logs: strings_view(self.logs@),
            text: self.text@,
            failure: optional_error(self.failure),
        }
    }
}

fn copy_flags(flags: &Vec<bool>) -> (copy: Vec<bool>)
    ensures
        copy@ == flags@,
{
    let mut copy: Vec<bool> = Vec::new();
    let mut i: usize = 0;
    while i < flags.len()
        invariant
            i <= flags.len(),
            copy@ == flags@.take(i as int),
        decreases flags.len() - i,
    {
        copy.push(flags[i]);
        assert(flags@.take(i + 1) =~= flags@.take(i as int).push(flags@[i as int]));
        i += 1;
    }
    assert(flags@.take(flags.len() as int) =~= flags@);
    copy
}

impl LogOperation {
    #[verifier::type_invariant]
    spec fn inv(self) -> bool {
        self@.well_formed()
    }

    /// The protocol for `task` on the logs of `name`, before its first
    /// step; `rotator` is the rotation in force.
    pub fn new(task: LogTask, name: String, rotator: LogRotator) -> (operation: Self)
        ensures
            operation@ == LogsView::initial(task, name@, rotator.policy()),
    {
        let operation = LogOperation {
            phase: LogsPhase::Find,
            task,
            name,
            rotator,
            log_path: String::new(),
            size: None,
            candidates: Vec::new(),
            present: Vec::new(),
            files: Vec::new(),
            index: 0,
            logs: Vec::new(),
            text: String::new(),
            failure: None,
        };
        assert(strings_view(operation.candidates@) =~= Seq::<Seq<char>>::empty());
        assert(strings_view(operation.files@) =~= Seq::<Seq<char>>::empty());
        assert(strings_view(operation.logs@) =~= Seq::<Seq<char>>::empty());
        operation
    }

    /// Whether the protocol has ended.
    pub fn is_finished(&self) -> (done: bool)
        ensures
            done == (self@.phase == LogsPhase::Done),
            done == self@.outcome() is Some,
    {
        match self.phase {
            LogsPhase::Done => true,
            _ => false,
        }
    }

    /// The request to carry out next.
    pub fn request(&self) -> (request: Request)
        ensures
            request@ == self@.request(),
    {
        proof {
            use_type_invariant(self);
        }
        match self.phase {
            LogsPhase::Find => Request::FindRecord { name: self.name.clone() },
            LogsPhase::ReadLive => Request::ReadFile { path: self.log_path.clone() },
            LogsPhase::Rotate => Request::RotateLog { path: self.log_path.clone() },
            LogsPhase::StatLive => Request::FileSize { path: self.log_path.clone() },
            LogsPhase::StatBackup => Request::FileSize {
                path: self.candidates[self.index].clone(),
            },
            LogsPhase::ReadBackup => Request::ReadFile { path: self.files[self.index].clone() },
            LogsPhase::Done => Request::Finished,
        }
    }

    /// What the protocol ended with, once it has ended: the rotated logs
    /// for that task, a text for any other, or the failure.
    pub fn outcome(&self) -> (outcome: Option<Result<LogOutput, Error>>)
        ensures
            match outcome {
                Some(Ok(output)) => self@.outcome() == Some(Ok::<LogOutputView, ErrorView>(output@)),
                Some(Err(e)) => self@.outcome() == Some(Err::<LogOutputView, ErrorView>(e@)),
                None => self@.outcome() is None,
            },
    {
        match self.phase {
            LogsPhase::Done => match &self.failure {
                Some(e) => Some(Err(e.clone())),
                None => match self.task {
                    LogTask::Rotated => Some(Ok(LogOutput::Files(copy_strings(&self.logs)))),
                    _ => Some(Ok(LogOutput::Text(self.text.clone()))),
                },
            },
            _ => None,
        }
    }

    fn ended_with(self, failure: Error) -> (next: Self)
        ensures
            next@ == self@.ended_with(failure@),
    {
        LogOperation { phase: LogsPhase::Done, failure: Some(failure), ..self }
    }

    fn report(&self, rotated: usize) -> (text: String)
        ensures
            text@ == rotation_report(
                self@.log_path,
                self@.size,
                self@.rotation,
                rotated as nat,
            ),
    {
        let mut text = String::from_str("Log file: ");
        text.append(self.log_path.as_str());
        text.append("\nCurrent size: ");
        push_decimal(&mut text, self.rotator.get_log_size(self.size));
        text.append(" bytes\nNeeds rotation: ");
        if self.rotator.needs_rotation(self.size) {
            text.append("Yes");
        } else {
            text.append("No");
        }
        text.append("\nRotated files: ");
        push_decimal(&mut text, rotated as u64);
        text
    }

    fn scanned(self, present: Vec<bool>, index: usize) -> (next: Self)
        requires
            self@.failure is None,
            self@.task == LogTask::Rotated || self@.task == LogTask::Status,
        ensures
            next@ == (LogsView { present: present@, index: index as nat, ..self@ }).scanned(),
    {
        let files = match self.rotator.get_rotated_files(self.log_path.as_str(), &present) {
            Ok(files) => files,
            Err(e) => {
                return LogOperation {
                    phase: LogsPhase::Done,
                    failure: Some(e),
                    present,
                    index,
                    ..self
                };
            },
        };
        match self.task {
            LogTask::Status => {
                let text = self.report(files.len());
                LogOperation { phase: LogsPhase::Done, files, text, present, index, ..self }
            },
            _ => {
                if files.len() == 0 {
                    LogOperation { phase: LogsPhase::Done, files, present, index: 0, ..self }
                } else {
                    LogOperation { phase: LogsPhase::ReadBackup, files, present, index: 0, ..self }
                }
            },
        }
    }

    fn scanning(self) -> (next: Self)
        requires
            self@.failure is None,
            self@.phase == LogsPhase::Find || self@.phase == LogsPhase::StatLive,
            self@.task == LogTask::Rotated || self@.task == LogTask::Status,
        ensures
            next@ == self@.scanning(),
    {
        proof {
            use_type_invariant(&self);
        }
        let candidates = match self.rotator.backup_candidates(self.log_path.as_str()) {
            Ok(candidates) => candidates,
            Err(e) => {
                return self.ended_with(e);
            },
        };
        if candidates.len() == 0 {
            let begun = LogOperation { candidates, ..self };
            begun.scanned(Vec::new(), 0)
        } else {
            LogOperation {
                phase: LogsPhase::StatBackup,
                candidates,
                present: Vec::new(),
                index: 0,
                ..self
            }
        }
    }

    fn after_find(self, event: Event) -> (next: Self)
        requires
            self@.phase == LogsPhase::Find,
        ensures
            next@ == self@.after_find(event),
    {
        proof {
            use_type_invariant(&self);
        }
        match event {
            Event::Record(None) => {
                let name = self.name.clone();
                self.ended_with(Error::ProcessNotFound(name))
            },
            Event::Record(Some(record)) => {
                let found = LogOperation { log_path: record.log_path, ..self };
                match found.task {
                    LogTask::Tail { .. } => LogOperation { phase: LogsPhase::ReadLive, ..found },
                    LogTask::Rotate => LogOperation { phase: LogsPhase::Rotate, ..found },
                    LogTask::Status => LogOperation { phase: LogsPhase::StatLive, ..found },
                    LogTask::Rotated => found.scanning(),
                }
            },
            Event::Failed(e) => self.ended_with(e),
            _ => self,
        }
    }

    fn after_read_live(self, event: Event) -> (next: Self)
        requires
            self@.phase == LogsPhase::ReadLive,
        ensures
            next@ == self@.after_read_live(event),
    {
        proof {
            use_type_invariant(&self);
        }
        match event {
            Event::Content(content) => {
                let text = match self.task {
                    LogTask::Tail { lines: Some(count) } => tail(content.as_str(), count),
                    _ => content,
                };
                LogOperation { phase: LogsPhase::Done, text, ..self }
            },
            Event::Failed(e) => {
                let mut text = String::from_str("Failed to read log file: ");
                text.append(e.detail().as_str());
                self.ended_with(Error::Other(text))
            },
            _ => self,
        }
    }

    fn after_rotate(self, event: Event) -> (next: Self)
        requires
            self@.phase == LogsPhase::Rotate,
        ensures
            next@ == self@.after_rotate(event),
    {
        proof {
            use_type_invariant(&self);
        }
        match event {
            Event::Done => {
                let mut text = String::from_str("Log rotation completed for process '");
                text.append(self.name.as_str());
                text.append("'");
                LogOperation { phase: LogsPhase::Done, text, ..self }
            },
            Event::Failed(e) => self.ended_with(e),
            _ => self,
        }
    }

    fn after_stat_live(self, event: Event) -> (next: Self)
        requires
            self@.phase == LogsPhase::StatLive,
        ensures
            next@ == self@.after_stat_live(event),
    {
        proof {
            use_type_invariant(&self);
        }
        match event {
            Event::Size(size) => {
                let sized = LogOperation { size, ..self };
                sized.scanning()
            },
            Event::Failed(e) => self.ended_with(e),
            _ => self,
        }
    }

    fn noted(self, exists: bool) -> (next: Self)
        requires
            self@.phase == LogsPhase::StatBackup,
        ensures
            next@ == self@.noted(exists),
    {
        proof {
            use_type_invariant(&self);
        }
        let count = self.candidates.len();
        let index = self.index;
        assert(index < count);
        if index + 1 >= count {
            let mut present = copy_flags(&self.present);
            present.push(exists);
            self.scanned(present, index + 1)
        } else {
            let mut present = self.present;
            present.push(exists);
            LogOperation { present, index: index + 1, ..self }
        }
    }

    fn after_stat_backup(self, event: Event) -> (next: Self)
        requires
            self@.phase == LogsPhase::StatBackup,
        ensures
            next@ == self@.after_stat_backup(event),
    {
        match event {
            Event::Size(size) => self.noted(size.is_some()),
            Event::Failed(_) => self.noted(false),
            _ => self,
        }
    }

    fn next_file(self) -> (next: Self)
        requires
            self@.phase == LogsPhase::ReadBackup,
            self@.well_formed(),
        ensures
            next@ == self@.next_file(),
    {
        let count = self.files.len();
        let index = self.index;
        assert(index < count);
        if index + 1 >= count {
            LogOperation { phase: LogsPhase::Done, index: index + 1, ..self }
        } else {
            LogOperation { index: index + 1, ..self }
        }
    }

    fn after_read_backup(self, event: Event) -> (next: Self)
        requires
            self@.phase == LogsPhase::ReadBackup,
        ensures
            next@ == self@.after_read_backup(event),
    {
        proof {
            use_type_invariant(&self);
        }
        match event {
            Event::Content(content) => {
                let mut entry = String::from_str("=== ");
                entry.append(self.files[self.index].as_str());
                entry.append(" ===\n");
                entry.append(content.as_str());
                let ghost before = strings_view(self.logs@);
                let mut logs = self.logs;
                logs.push(entry);
                assert(strings_view(logs@) =~= before.push(entry@));
                let read = LogOperation { logs, ..self };
                read.next_file()
            },
            Event::Failed(_) => self.next_file(),
            _ => self,
        }
    }

    /// Moves the protocol on by one observation.
    pub fn advance(self, event: Event) -> (next: Self)
        ensures
            next@ == self@.step(event),
    {
        match self.phase {
            LogsPhase::Find => self.after_find(event),
            LogsPhase::ReadLive => self.after_read_live(event),
            LogsPhase::Rotate => self.after_rotate(event),
            LogsPhase::StatLive => self.after_stat_live(event),
            LogsPhase::StatBackup => self.after_stat_backup(event),
            LogsPhase::ReadBackup => self.after_read_backup(event),
            LogsPhase::Done => self,
        }
    }
}

} // verus!
