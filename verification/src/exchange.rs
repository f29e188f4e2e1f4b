//! What the supervisor exchanges with the outside: what it asks of the
//! store, the filesystem and the operating system, and what it is told in
//! return.
//!
//! An operation of the supervisor is a protocol. It names the next request,
//! the embedding program carries the request out and reports what it
//! observed, and the protocol moves on. The library itself performs no
//! input or output.

use crate::database::{ProcessRecord, ProcessStatus, RecordView};
use crate::env::EnvVars;
use crate::error::Error;
use crate::text::strings_view;
use vstd::prelude::*;

verus! {

/// What a protocol asks the embedding program to do next.
#[allow(inconsistent_fields)]
#[derive(Debug, PartialEq, Eq)]
pub enum Request {
    /// Look up the record called `name`.
    FindRecord { name: String },
    /// List every record, the most recently created first.
    ListRecords,
    /// List the records at rest (stopped or failed), the most recently
    /// created first.
    ListFinishedRecords,
    /// Insert `record`; the store refuses a name that it already holds.
    InsertRecord { record: ProcessRecord },
    /// Set status and pid of the record called `name`.
    UpdateStatus { name: String, status: ProcessStatus, pid: Option<u32> },
    /// Delete the record called `name`.
    DeleteRecord { name: String },
    /// Delete the record with the identifier `id`.
    DeleteRecordById { id: String },
    /// Make sure that the directory `dir` exists.
    EnsureDir { dir: String },
    /// Tell the size of the file at `path`, if there is one.
    FileSize { path: String },
    /// Rotate the log at `path` if it exists.
    RotateLog { path: String },
    /// Create the file at `path` in the directory `dir`, empty; truncate
    /// it if it exists.
    CreateFile { dir: String, path: String },
    /// Remove the file at `path` if it exists.
    RemoveFile { path: String },
    /// Remove the directory `dir` if nothing is in it.
    RemoveDirIfEmpty { dir: String },
    /// Read the file at `path` as text.
    ReadFile { path: String },
    /// Spawn `command` with `args` as a detached process in a session of
    /// its own, in `working_dir`, with `env_vars` added to its environment,
    /// its output appended to the file at `log_path` and no input. Where
    /// the log file cannot be opened, the failure is an `Io` failure;
    /// where the spawn is refused, it is any other.
    Spawn {
        command: String,
        args: Vec<String>,
        env_vars: EnvVars,
        working_dir: String,
        log_path: String,
    },
    /// Put the handle of the process just spawned, with the pid `pid`, into
    /// the tracker.
    Track { pid: u32 },
    /// Drop the handle tracked for `pid`, if there is one.
    Untrack { pid: u32 },
    /// Take the handle tracked for `pid` out of the tracker and hold it.
    TakeHandle { pid: u32 },
    /// Terminate the process through the handle held for `pid` and wait for
    /// its exit.
    KillHandle { pid: u32 },
    /// Put the handle held for `pid` back into the tracker.
    ReturnHandle { pid: u32 },
    /// Probe whether the process `pid` is alive, without disturbing it.
    Probe { pid: u32 },
    /// Send the termination signal to the process `pid`.
    Signal { pid: u32 },
    /// Wait for `millis` milliseconds.
    Sleep { millis: u64 },
    /// Nothing: the protocol has ended.
    Finished,
}

/// Mathematical value of a [`Request`].
#[allow(inconsistent_fields)]
pub enum RequestView {
    FindRecord { name: Seq<char> },
    ListRecords,
    ListFinishedRecords,
    InsertRecord { record: RecordView },
    UpdateStatus { name: Seq<char>, status: ProcessStatus, pid: Option<u32> },
    DeleteRecord { name: Seq<char> },
    DeleteRecordById { id: Seq<char> },
    EnsureDir { dir: Seq<char> },
    FileSize { path: Seq<char> },
    RotateLog { path: Seq<char> },
    CreateFile { dir: Seq<char>, path: Seq<char> },
    RemoveFile { path: Seq<char> },
    RemoveDirIfEmpty { dir: Seq<char> },
    ReadFile { path: Seq<char> },
    Spawn {
        command: Seq<char>,
        args: Seq<Seq<char>>,
        env_vars: Seq<(Seq<char>, Seq<char>)>,
        working_dir: Seq<char>,
        log_path: Seq<char>,
    },
    Track { pid: u32 },
    Untrack { pid: u32 },
    TakeHandle { pid: u32 },
    KillHandle { pid: u32 },
    ReturnHandle { pid: u32 },
    Probe { pid: u32 },
    Signal { pid: u32 },
    Sleep { millis: u64 },
    Finished,
}

impl View for Request {
    type V = RequestView;

    open spec fn view(&self) -> RequestView {
        match self {
            Request::FindRecord { name } => RequestView::FindRecord { name: name@ },
            Request::ListRecords => RequestView::ListRecords,
            Request::ListFinishedRecords => RequestView::ListFinishedRecords,
            Request::InsertRecord { record } => RequestView::InsertRecord { record: record@ },
            Request::UpdateStatus { name, status, pid } => RequestView::UpdateStatus {
                name: name@,
                status: *status,
                pid: *pid,
            },
            Request::DeleteRecord { name } => RequestView::DeleteRecord { name: name@ },
            Request::DeleteRecordById { id } => RequestView::DeleteRecordById { id: id@ },
            Request::EnsureDir { dir } => RequestView::EnsureDir { dir: dir@ },
            Request::FileSize { path } => RequestView::FileSize { path: path@ },
            Request::RotateLog { path } => RequestView::RotateLog { path: path@ },
            Request::CreateFile { dir, path } => RequestView::CreateFile { dir: dir@, path: path@ },
            Request::RemoveFile { path } => RequestView::RemoveFile { path: path@ },
            Request::RemoveDirIfEmpty { dir } => RequestView::RemoveDirIfEmpty { dir: dir@ },
            Request::ReadFile { path } => RequestView::ReadFile { path: path@ },
            Request::Spawn { command, args, env_vars, working_dir, log_path } => RequestView::Spawn {
                command: command@,
                args: strings_view(args@),
                env_vars: env_vars.pairs(),
                working_dir: working_dir@,
                log_path: log_path@,
            },
            Request::Track { pid } => RequestView::Track { pid: *pid },
            Request::Untrack { pid } => RequestView::Untrack { pid: *pid },
            Request::TakeHandle { pid } => RequestView::TakeHandle { pid: *pid },
            Request::KillHandle { pid } => RequestView::KillHandle { pid: *pid },
            Request::ReturnHandle { pid } => RequestView::ReturnHandle { pid: *pid },
            Request::Probe { pid } => RequestView::Probe { pid: *pid },
            Request::Signal { pid } => RequestView::Signal { pid: *pid },
            Request::Sleep { millis } => RequestView::Sleep { millis: *millis },
            Request::Finished => RequestView::Finished,
        }
    }
}

/// What the embedding program observed when it carried out a request.
#[derive(Debug, PartialEq, Eq)]
pub enum Event {
    /// The request was carried out and there is nothing to report.
    Done,
    /// The request failed.
    Failed(Error),
    /// Answer to `FindRecord`: the record, if the store holds one.
    Record(Option<ProcessRecord>),
    /// Answer to `ListRecords` and `ListFinishedRecords`.
    Records(Vec<ProcessRecord>),
    /// Answer to `DeleteRecord` and `DeleteRecordById`: whether a record
    /// was deleted.
    Deleted(bool),
    /// Answer to `EnsureDir`: the directory exists now; `existed` tells
    /// whether it did before.
    DirReady { existed: bool },
    /// Answer to `FileSize`: the size in bytes, if the file exists.
    Size(Option<u64>),
    /// Answer to `ReadFile`.
    Content(String),
    /// Answer to `Spawn`: the process was spawned; `pid` is its pid where
    /// the operating system gave one.
    Spawned { pid: Option<u32> },
    /// Answer to `Probe`.
    Alive(bool),
    /// Answer to `TakeHandle`: whether a handle was tracked.
    Taken(bool),
    /// Answer to `Signal`: whether the signal was delivered.
    Signaled(bool),
}

/// Views of the records of `v`, in order.
pub open spec fn records_view(v: Seq<ProcessRecord>) -> Seq<RecordView> {
    Seq::new(v.len(), |i: int| v[i]@)
}

} // verus!
