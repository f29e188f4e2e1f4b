//! The process supervisor: its operations as protocols.
//!
//! Each operation is a value that names the next request to the outside
//! and moves on with what was observed; see [`crate::exchange`]. The
//! supervisor itself holds the settings and makes those values.

pub mod clear;
pub mod clear_laws;
pub mod delete;
pub mod delete_laws;
pub mod logs;
pub mod logs_laws;
pub mod restart;
pub mod restart_laws;
pub mod start;
pub mod start_laws;
pub mod status;
pub mod status_laws;
pub mod stop;
pub mod stop_laws;

pub use clear::ClearResult;

use crate::clock::fresh_id;
use crate::config::Config;
use crate::env::EnvVars;
use crate::log_rotation::LogRotator;
use crate::paths::{join_path, joined_path};
use crate::process::clear::{ClearProcesses, ClearView};
use crate::process::delete::{DeleteProcess, DeleteView};
use crate::process::logs::{LogOperation, LogTask, LogsView};
use crate::process::restart::{RestartProcess, RestartView};
use crate::process::start::{StartProcess, StartView, log_file_name};
use crate::process::status::{GetStatus, ListProcesses, ListView, StatusView};
use crate::process::stop::{StopProcess, StopView};
use crate::text::strings_view;
use vstd::prelude::*;
use vstd::string::StringExecFns;

verus! {

/// The working directory of a process: the one asked for, or the current
/// one.
pub open spec fn resolved_dir(asked: Option<String>, fallback: Seq<char>) -> Seq<char> {
    match asked {
        Some(dir) => dir@,
        None => fallback,
    }
}

/// The supervisor.
#[derive(Debug)]
pub struct ProcessManager {
    config: Config,
    log_rotator: LogRotator,
}

impl ProcessManager {
    /// The settings of the supervisor.
    pub closed spec fn settings(&self) -> Config {
        self.config
    }

    /// A supervisor with the settings `config`; its rotation follows the
    /// policy of the settings.
    pub fn new(config: Config) -> (manager: Self)
        ensures
            manager.settings() == config,
            manager.rotator().policy() == config.log_rotation,
    {
        let log_rotator = LogRotator::new(config.log_rotation);
        ProcessManager { config, log_rotator }
    }

    /// The rotation in force.
    pub closed spec fn rotator(&self) -> LogRotator {
        self.log_rotator
    }

    /// The settings of the supervisor.
    pub fn config(&self) -> (config: &Config)
        ensures
            *config == self.settings(),
    {
        &self.config
    }

    /// The rotation in force.
    pub fn log_rotator(&self) -> (rotator: LogRotator)
        ensures
            rotator == self.rotator(),
    {
        self.log_rotator
    }

    /// Begins the start of `command` with `args` under the name `name`.
    /// The process runs in `working_dir`, or in `current_dir` if none is
    /// given; its log is `<name>.log` in `log_dir`, or in the default log
    /// directory if none is given. The record to be gets a new identifier.
    pub fn start_process(
        &self,
        name: &str,
        command: &str,
        args: Vec<String>,
        env_vars: EnvVars,
        working_dir: Option<String>,
        log_dir: Option<String>,
        current_dir: &str,
    ) -> (start: StartProcess)
        ensures
            start@ == StartView::initial(
                start@.id,
                name@,
                command@,
                strings_view(args@),
                env_vars.pairs(),
                resolved_dir(working_dir, current_dir@),
                resolved_dir(log_dir, self.settings().default_log_dir@),
                joined_path(
                    resolved_dir(log_dir, self.settings().default_log_dir@),
                    log_file_name(name@),
                ),
                self.rotator().policy(),
            ),
    {
        let id = fresh_id();
        let working_dir = match working_dir {
            Some(dir) => dir,
            None => String::from_str(current_dir),
        };
        let log_dir = match log_dir {
            Some(dir) => dir,
            None => self.config.default_log_dir.clone(),
        };
        let file = StartProcess::log_file_name(name);
        let log_path = join_path(log_dir.as_str(), file.as_str());
        StartProcess::new(
            id,
            String::from_str(name),
            String::from_str(command),
            args,
            env_vars,
            working_dir,
            log_dir,
            log_path,
            self.log_rotator,
        )
    }

    /// Begins the stop of the process `name`.
    pub fn stop_process(&self, name: &str) -> (stop: StopProcess)
        ensures
            stop@ == StopView::initial(name@),
    {
        StopProcess::new(String::from_str(name))
    }

    /// Begins the restart of the process `name`. The record of the process
    /// started again gets a new identifier.
    pub fn restart_process(&self, name: &str) -> (restart: RestartProcess)
        ensures
            restart@ == RestartView::initial(
                name@,
                restart@.new_id,
                self.settings().default_log_dir@,
                self.rotator().policy(),
            ),
    {
        let id = fresh_id();
        RestartProcess::new(
            String::from_str(name),
            id,
            self.config.default_log_dir.clone(),
            self.log_rotator,
        )
    }

    /// Begins the delete of the process `name`.
    pub fn delete_process(&self, name: &str) -> (delete: DeleteProcess)
        ensures
            delete@ == DeleteView::initial(name@),
    {
        DeleteProcess::new(String::from_str(name))
    }

    /// Begins a listing of all processes, each reconciled.
    pub fn list_processes(&self) -> (listing: ListProcesses)
        ensures
            listing@ == ListView::initial(),
    {
        ListProcesses::new()
    }

    /// Begins a sweep: of all processes if `all` is set, else of those at
    /// rest.
    pub fn clear_processes(&self, all: bool) -> (sweep: ClearProcesses)
        ensures
            sweep@ == ClearView::initial(all),
    {
        ClearProcesses::new(all)
    }

    /// Begins the reading of the status of the process `name`.
    pub fn get_process_status(&self, name: &str) -> (reading: GetStatus)
        ensures
            reading@ == StatusView::initial(name@),
    {
        GetStatus::new(String::from_str(name))
    }

    /// Begins the reading of the log of the process `name`: all of it, or
    /// its last `lines` lines.
    pub fn get_process_logs(&self, name: &str, lines: Option<usize>) -> (operation: LogOperation)
        ensures
            operation@ == LogsView::initial(
                LogTask::Tail { lines },
                name@,
                self.rotator().policy(),
            ),
    {
        LogOperation::new(LogTask::Tail { lines }, String::from_str(name), self.log_rotator)
    }

    /// Begins the reading of the rotated logs of the process `name`.
    pub fn get_rotated_logs(&self, name: &str) -> (operation: LogOperation)
        ensures
            operation@ == LogsView::initial(LogTask::Rotated, name@, self.rotator().policy()),
    {
        LogOperation::new(LogTask::Rotated, String::from_str(name), self.log_rotator)
    }

    /// Begins a rotation of the log of the process `name`, whatever its
    /// size.
    pub fn rotate_process_logs(&self, name: &str) -> (operation: LogOperation)
        ensures
            operation@ == LogsView::initial(LogTask::Rotate, name@, self.rotator().policy()),
    {
        LogOperation::new(LogTask::Rotate, String::from_str(name), self.log_rotator)
    }

    /// Begins a report on the rotation of the log of the process `name`.
    pub fn get_log_rotation_status(&self, name: &str) -> (operation: LogOperation)
        ensures
            operation@ == LogsView::initial(LogTask::Status, name@, self.rotator().policy()),
    {
        LogOperation::new(LogTask::Status, String::from_str(name), self.log_rotator)
    }
}

} // verus!
