//! Requests and answers of the remote frontend.

use crate::database::ProcessRecord;
use crate::env::EnvVars;
use crate::process::logs::LogTask;
use vstd::prelude::*;

verus! {

/// An answer of the remote frontend: the data of a success, or the
/// message of a failure.
#[derive(Debug, PartialEq, Eq)]
pub struct ApiResponse<T> {
    /// Whether the request succeeded.
    pub success: bool,
    /// The data, on success.
    pub data: Option<T>,
    /// The message, on failure.
    pub error: Option<String>,
}

impl<T> ApiResponse<T> {
    /// The answer to a request that succeeded with `data`.
    pub fn success(data: T) -> (r: Self)
        ensures
            r.success,
            r.data == Some(data),
            r.error is None,
    {
        ApiResponse { success: true, data: Some(data), error: None }
    }

    /// The answer to a request that failed with `message`.
    pub fn error(message: String) -> (r: Self)
        ensures
            !r.success,
            r.data is None,
            r.error == Some(message),
    {
        ApiResponse { success: false, data: None, error: Some(message) }
    }
}

/// An answer that lists processes.
#[derive(Debug, PartialEq, Eq)]
pub struct ProcessListResponse {
    pub success: bool,
    pub data: Option<Vec<ProcessRecord>>,
    pub error: Option<String>,
}

impl ProcessListResponse {
    /// The answer to a request that succeeded with `data`.
    pub fn success(data: Vec<ProcessRecord>) -> (r: Self)
        ensures
            r.success,
            r.data == Some(data),
            r.error is None,
    {
        ProcessListResponse { success: true, data: Some(data), error: None }
    }

    /// The answer to a request that failed with `message`.
    pub fn error(message: String) -> (r: Self)
        ensures
            !r.success,
            r.data is None,
            r.error == Some(message),
    {
        ProcessListResponse { success: false, data: None, error: Some(message) }
    }
}

/// An answer that describes one process.
#[derive(Debug, PartialEq, Eq)]
pub struct ProcessResponse {
    pub success: bool,
    pub data: Option<ProcessRecord>,
    pub error: Option<String>,
}

impl ProcessResponse {
    /// The answer to a request that succeeded with `data`.
    pub fn success(data: ProcessRecord) -> (r: Self)
        ensures
            r.success,
            r.data == Some(data),
            r.error is None,
    {
        ProcessResponse { success: true, data: Some(data), error: None }
    }

    /// The answer to a request that failed with `message`.
    pub fn error(message: String) -> (r: Self)
        ensures
            !r.success,
            r.data is None,
            r.error == Some(message),
    {
        ProcessResponse { success: false, data: None, error: Some(message) }
    }
}

/// An answer that carries a message.
#[derive(Debug, PartialEq, Eq)]
pub struct MessageResponse {
    pub success: bool,
    pub data: Option<String>,
    pub error: Option<String>,
}

impl MessageResponse {
    /// The answer to a request that succeeded with `data`.
    pub fn success(data: String) -> (r: Self)
        ensures
            r.success,
            r.data == Some(data),
            r.error is None,
    {
        MessageResponse { success: true, data: Some(data), error: None }
    }

    /// The answer to a request that failed with `message`.
    pub fn error(message: String) -> (r: Self)
        ensures
            !r.success,
            r.data is None,
            r.error == Some(message),
    {
        MessageResponse { success: false, data: None, error: Some(message) }
    }
}

/// A request to start a process.
#[derive(Debug, PartialEq, Eq)]
pub struct StartProcessRequest {
    /// Name of the process; no other process may have it.
    pub name: String,
    /// Command to execute.
    pub command: String,
    /// Arguments of the command.
    pub args: Vec<String>,
    /// Variables added to the environment.
    pub env_vars: Option<EnvVars>,
    /// Working directory; the current one where none is given.
    pub working_dir: Option<String>,
    /// Log directory; the default one where none is given.
    pub log_dir: Option<String>,
}

/// What a request for logs asks for.
#[derive(Debug, Clone, Copy, PartialEq, Eq)]
pub struct LogsQuery {
    /// Number of lines to return; all where none is given.
    pub lines: Option<usize>,
    /// Whether the rotated logs are asked for.
    pub rotated: Option<bool>,
}

impl LogsQuery {
    /// The task that the query stands for: the rotated logs if it asks for
    /// them, else the log or its last lines.
    pub open spec fn asks_for(self) -> LogTask {
        if self.rotated == Some(true) {
            LogTask::Rotated
        } else {
            LogTask::Tail { lines: self.lines }
        }
    }

    /// The task that the query stands for.
    pub fn task(&self) -> (task: LogTask)
        ensures
            task == self.asks_for(),
    {
        match self.rotated {
            Some(true) => LogTask::Rotated,
            _ => LogTask::Tail { lines: self.lines },
        }
    }
}

} // verus!
