use pmr::config::{Config, LogRotationConfig};
use pmr::database::{ProcessRecord, ProcessStatus};
use pmr::env::EnvVars;
use pmr::error::Error;
use pmr::log_rotation::{LogRotator, RotationStep};
use pmr::exchange::{Event, Request};
use pmr::process::clear::ClearResult;
use pmr::process::logs::LogOutput;
use pmr::process::start::{StartPhase, StartProcess};
use pmr::process::ProcessManager;
use pmr::tracker::Tracker;
use std::collections::{BTreeMap, BTreeSet};

/// Surroundings kept in memory: a store, files, directories, processes.
struct Sim {
    records: Vec<ProcessRecord>,
    dirs: BTreeSet<String>,
    files: BTreeMap<String, String>,
    tracker: Tracker<u32>,
    held: Option<u32>,
    spawned: Option<u32>,
    alive: BTreeSet<u32>,
    next_pid: u32,
    rotator: LogRotator,
    fail_insert: bool,
    fail_remove_file: bool,
    fail_kill: bool,
    fail_ensure_dir: bool,
    fail_create_file: bool,
    asked: Vec<String>,
}

impl Sim {
    fn new(rotation: LogRotationConfig) -> Sim {
        Sim {
            records: Vec::new(),
            dirs: BTreeSet::new(),
            files: BTreeMap::new(),
            tracker: Tracker::new(),
            held: None,
            spawned: None,
            alive: BTreeSet::new(),
            next_pid: 4000,
            rotator: LogRotator::new(rotation),
            fail_insert: false,
            fail_remove_file: false,
            fail_kill: false,
            fail_ensure_dir: false,
            fail_create_file: false,
            asked: Vec::new(),
        }
    }

    fn find(&self, name: &str) -> Option<ProcessRecord> {
        self.records.iter().find(|r| r.name == name).cloned()
    }

    fn rotate(&mut self, path: &str) -> Event {
        let candidates = match self.rotator.backup_candidates(path) {
            Ok(c) => c,
            Err(e) => return Event::Failed(e),
        };
        let present: Vec<bool> = candidates.iter().map(|p| self.files.contains_key(p)).collect();
        let steps = match self.rotator.force_rotate(path, self.files.contains_key(path), &present) {
            Ok(s) => s,
            Err(e) => return Event::Failed(e),
        };
        for step in steps {
            match step {
                RotationStep::ShiftBackup { from, to, .. } => {
                    if let Some(content) = self.files.remove(&from) {
                        self.files.insert(to, content);
                    }
                }
                RotationStep::ArchiveLive { from, to } => match self.files.remove(&from) {
                    Some(content) => {
                        self.files.insert(to, content);
                    }
                    None => return Event::Failed(Error::Io(format!("no such file: {}", from))),
                },
                RotationStep::CreateLive { path } => {
                    self.files.insert(path, String::new());
                }
            }
        }
        Event::Done
    }

    fn answer(&mut self, request: Request) -> Event {
        self.asked.push(format!("{:?}", request).split(' ').next().unwrap().to_string());
        match request {
            Request::FindRecord { name } => Event::Record(self.find(&name)),
            Request::ListRecords => Event::Records(self.records.clone()),
            Request::ListFinishedRecords => Event::Records(
                self.records
                    .iter()
                    .filter(|r| {
                        r.status == ProcessStatus::Stopped || r.status == ProcessStatus::Failed
                    })
                    .cloned()
                    .collect(),
            ),
            Request::InsertRecord { record } => {
                if self.fail_insert || self.find(&record.name).is_some() {
                    Event::Failed(Error::Database("UNIQUE constraint failed".to_string()))
                } else {
                    self.records.insert(0, record);
                    Event::Done
                }
            }
            Request::UpdateStatus { name, status, pid } => {
                for r in self.records.iter_mut() {
                    if r.name == name {
                        r.status = status;
                        r.pid = pid;
                        r.updated_at.secs += 1;
                    }
                }
                Event::Done
            }
            Request::DeleteRecord { name } => {
                let before = self.records.len();
                self.records.retain(|r| r.name != name);
                Event::Deleted(self.records.len() < before)
            }
            Request::DeleteRecordById { id } => {
                let before = self.records.len();
                self.records.retain(|r| r.id != id);
                Event::Deleted(self.records.len() < before)
            }
            Request::EnsureDir { dir } => {
                if self.fail_ensure_dir {
                    return Event::Failed(Error::Io("read-only file system".to_string()));
                }
                let existed = self.dirs.contains(&dir);
                self.dirs.insert(dir);
                Event::DirReady { existed }
            }
            Request::FileSize { path } => {
                Event::Size(self.files.get(&path).map(|c| c.len() as u64))
            }
            Request::RotateLog { path } => self.rotate(&path),
            Request::CreateFile { dir, path } => {
                assert!(self.dirs.contains(&dir));
                if self.fail_create_file {
                    return Event::Failed(Error::Io("disk full".to_string()));
                }
                self.files.insert(path, String::new());
                Event::Done
            }
            Request::RemoveFile { path } => {
                if self.fail_remove_file {
                    Event::Failed(Error::Io("permission denied".to_string()))
                } else {
                    self.files.remove(&path);
                    Event::Done
                }
            }
            Request::RemoveDirIfEmpty { dir } => {
                let prefix = format!("{}/", dir);
                if !self.files.keys().any(|p| p.starts_with(&prefix)) {
                    self.dirs.remove(&dir);
                }
                Event::Done
            }
            Request::ReadFile { path } => match self.files.get(&path) {
                Some(content) => Event::Content(content.clone()),
                None => Event::Failed(Error::Io("No such file or directory".to_string())),
            },
            Request::Spawn { command, args, log_path, .. } => {
                if command == "/does/not/exist" {
                    return Event::Failed(Error::Other(
                        "No such file or directory (os error 2)".to_string(),
                    ));
                }
                if !self.files.contains_key(&log_path) {
                    return Event::Failed(Error::Io("log file is gone".to_string()));
                }
                let pid = self.next_pid;
                self.next_pid += 1;
                if command == "echo" {
                    let line = format!("{}\n", args.join(" "));
                    self.files.entry(log_path).or_default().push_str(&line);
                } else {
                    self.alive.insert(pid);
                }
                self.spawned = Some(pid);
                Event::Spawned { pid: Some(pid) }
            }
            Request::Track { pid } => {
                assert_eq!(self.spawned.take(), Some(pid));
                self.tracker.track(pid, pid);
                Event::Done
            }
            Request::Untrack { pid } => {
                self.tracker.untrack(pid);
                Event::Done
            }
            Request::TakeHandle { pid } => {
                self.held = self.tracker.take(pid);
                Event::Taken(self.held.is_some())
            }
            Request::KillHandle { pid } => {
                assert_eq!(self.held, Some(pid));
                if self.fail_kill {
                    Event::Failed(Error::Io("operation not permitted".to_string()))
                } else {
                    self.held = None;
                    self.alive.remove(&pid);
                    Event::Done
                }
            }
            Request::ReturnHandle { pid } => {
                if let Some(handle) = self.held.take() {
                    self.tracker.track(pid, handle);
                }
                Event::Done
            }
            Request::Probe { pid } => Event::Alive(self.alive.contains(&pid)),
            Request::Signal { pid } => Event::Signaled(self.alive.remove(&pid)),
            Request::Sleep { .. } => Event::Done,
            Request::Finished => panic!("a finished protocol was asked to go on"),
        }
    }

    fn run_start(&mut self, mut start: StartProcess) -> (Result<String, Error>, Vec<String>) {
        while !start.is_finished() {
            let event = self.answer(start.request());
            start = start.advance(event);
        }
        (start.outcome().unwrap(), start.warnings().clone())
    }

    fn start(
        &mut self,
        manager: &ProcessManager,
        name: &str,
        command: &str,
        args: &[&str],
    ) -> Result<String, Error> {
        let args: Vec<String> = args.iter().map(|a| a.to_string()).collect();
        let start =
            manager.start_process(name, command, args, EnvVars::new(), None, None, "/work");
        self.run_start(start).0
    }

    fn stop(&mut self, manager: &ProcessManager, name: &str) -> Result<String, Error> {
        let mut stop = manager.stop_process(name);
        while !stop.is_finished() {
            let event = self.answer(stop.request());
            stop = stop.advance(event);
        }
        stop.outcome().unwrap()
    }

    fn delete(&mut self, manager: &ProcessManager, name: &str) -> Result<String, Error> {
        let mut delete = manager.delete_process(name);
        while !delete.is_finished() {
            let event = self.answer(delete.request());
            delete = delete.advance(event);
        }
        delete.outcome().unwrap()
    }

    fn restart(&mut self, manager: &ProcessManager, name: &str) -> Result<String, Error> {
        let mut restart = manager.restart_process(name);
        while !restart.is_finished() {
            let event = self.answer(restart.request());
            restart = restart.advance(event);
        }
        restart.outcome().unwrap()
    }

    fn clear(&mut self, manager: &ProcessManager, all: bool) -> Result<ClearResult, Error> {
        let mut sweep = manager.clear_processes(all);
        while !sweep.is_finished() {
            let event = self.answer(sweep.request());
            sweep = sweep.advance(event);
        }
        sweep.outcome().unwrap()
    }

    fn status(&mut self, manager: &ProcessManager, name: &str) -> Result<ProcessRecord, Error> {
        let mut reading = manager.get_process_status(name);
        while !reading.is_finished() {
            let event = self.answer(reading.request());
            reading = reading.advance(event);
        }
        reading.outcome().unwrap()
    }

    fn list(&mut self, manager: &ProcessManager) -> Result<Vec<ProcessRecord>, Error> {
        let mut listing = manager.list_processes();
        while !listing.is_finished() {
            let event = self.answer(listing.request());
            listing = listing.advance(event);
        }
        listing.outcome().unwrap()
    }

    fn logs(
        &mut self,
        manager: &ProcessManager,
        name: &str,
        lines: Option<usize>,
    ) -> Result<String, Error> {
        let mut operation = manager.get_process_logs(name, lines);
        while !operation.is_finished() {
            let event = self.answer(operation.request());
            operation = operation.advance(event);
        }
        match operation.outcome().unwrap() {
            Ok(LogOutput::Text(text)) => Ok(text),
            Ok(LogOutput::Files(_)) => panic!("a tail gives a text"),
            Err(e) => Err(e),
        }
    }
}

fn manager_with(rotation: LogRotationConfig) -> ProcessManager {
    let config = Config::new("/home/operator", "/work")
        .with_database_path("/tmp/pmr/test.db".to_string())
        .with_log_dir("/tmp/pmr/logs".to_string())
        .with_log_rotation(rotation);
    ProcessManager::new(config)
}

fn small_rotation() -> LogRotationConfig {
    LogRotationConfig { enabled: true, max_file_size: 1024, max_files: 3 }
}

fn setup() -> (ProcessManager, Sim) {
    (manager_with(small_rotation()), Sim::new(small_rotation()))
}

#[test]
fn start_of_fast_command_is_recorded_as_stopped() {
    let (manager, mut sim) = setup();
    let message = sim.start(&manager, "echo_test", "echo", &["hi"]).unwrap();
    assert_eq!(message, "Process 'echo_test' started with PID 4000 but exited quickly");
    let record = sim.find("echo_test").unwrap();
    assert_eq!(record.status, ProcessStatus::Stopped);
    assert_eq!(record.pid, Some(4000));
    assert_eq!(record.command, "echo");
    assert_eq!(record.args, vec!["hi".to_string()]);
    assert_eq!(record.working_dir, "/work");
    assert_eq!(record.log_path, "/tmp/pmr/logs/echo_test.log");
    assert_eq!(record.created_at, record.updated_at);
    assert_eq!(record.id.len(), 36);
    let logs = sim.logs(&manager, "echo_test", None).unwrap();
    assert!(logs.contains("hi"));
}

#[test]
fn start_of_long_command_runs_then_stops_then_deletes() {
    let (manager, mut sim) = setup();
    let message = sim.start(&manager, "sleeper", "sleep", &["5"]).unwrap();
    assert_eq!(message, "Process 'sleeper' started with PID 4000");
    assert_eq!(sim.find("sleeper").unwrap().status, ProcessStatus::Running);
    assert!(sim.tracker.is_tracking(4000));
    assert_eq!(sim.stop(&manager, "sleeper").unwrap(), "Process 'sleeper' stopped");
    let record = sim.find("sleeper").unwrap();
    assert_eq!(record.status, ProcessStatus::Stopped);
    assert_eq!(record.pid, Some(4000));
    assert!(!sim.tracker.is_tracking(4000));
    assert!(!sim.alive.contains(&4000));
    assert_eq!(sim.delete(&manager, "sleeper").unwrap(), "Process 'sleeper' deleted");
    assert!(sim.find("sleeper").is_none());
    assert!(!sim.files.contains_key("/tmp/pmr/logs/sleeper.log"));
}

#[test]
fn start_of_missing_command_leaves_nothing() {
    let (manager, mut sim) = setup();
    let result = sim.start(&manager, "ghost", "/does/not/exist", &[]);
    assert_eq!(
        result,
        Err(Error::Other(
            "Failed to start process 'ghost': No such file or directory (os error 2)".to_string()
        ))
    );
    assert!(sim.records.is_empty());
    assert!(sim.files.is_empty());
    assert!(sim.dirs.is_empty());
    assert_eq!(sim.tracker.len(), 0);
    assert_eq!(
        sim.asked,
        vec![
            "FindRecord",
            "EnsureDir",
            "FileSize",
            "CreateFile",
            "Spawn",
            "RemoveFile",
            "RemoveDirIfEmpty"
        ]
    );
}

#[test]
fn rollback_keeps_a_directory_that_was_there() {
    let (manager, mut sim) = setup();
    sim.dirs.insert("/tmp/pmr/logs".to_string());
    sim.files.insert("/tmp/pmr/logs/other.log".to_string(), "kept".to_string());
    assert!(sim.start(&manager, "ghost", "/does/not/exist", &[]).is_err());
    assert!(sim.dirs.contains("/tmp/pmr/logs"));
    assert_eq!(sim.files.len(), 1);
    assert!(!sim.files.contains_key("/tmp/pmr/logs/ghost.log"));
    assert!(!sim.asked.contains(&"RemoveDirIfEmpty".to_string()));
}

#[test]
fn rollback_after_refused_insert_reports_the_store_failure() {
    let (manager, mut sim) = setup();
    sim.fail_insert = true;
    let result = sim.start(&manager, "late", "sleep", &["5"]);
    assert_eq!(result, Err(Error::Database("UNIQUE constraint failed".to_string())));
    assert!(sim.records.is_empty());
    assert!(sim.files.is_empty());
    assert!(sim.dirs.is_empty());
}

#[test]
fn rollback_failure_becomes_a_warning() {
    let (manager, mut sim) = setup();
    sim.fail_remove_file = true;
    let start = manager.start_process(
        "ghost",
        "/does/not/exist",
        Vec::new(),
        EnvVars::new(),
        None,
        None,
        "/work",
    );
    let (result, warnings) = sim.run_start(start);
    assert!(matches!(result, Err(Error::Other(_))));
    assert_eq!(
        warnings,
        vec!["Failed to rollback log file /tmp/pmr/logs/ghost.log: permission denied".to_string()]
    );
    assert!(sim.files.contains_key("/tmp/pmr/logs/ghost.log"));
    assert!(sim.dirs.contains("/tmp/pmr/logs"));
}

#[test]
fn second_start_with_the_same_name_is_refused() {
    let (manager, mut sim) = setup();
    sim.start(&manager, "twice", "sleep", &["5"]).unwrap();
    let files = sim.files.clone();
    let result = sim.start(&manager, "twice", "sleep", &["5"]);
    assert_eq!(result, Err(Error::ProcessAlreadyExists("twice".to_string())));
    assert_eq!(result.unwrap_err().to_string(), "Process 'twice' already exists");
    assert_eq!(sim.records.len(), 1);
    assert_eq!(sim.files, files);
}

#[test]
fn start_without_pid_fails_and_rolls_back() {
    let (manager, sim) = setup();
    let _ = sim;
    let mut start =
        manager.start_process("nopid", "sleep", Vec::new(), EnvVars::new(), None, None, "/work");
    start = start.advance(Event::Record(None));
    start = start.advance(Event::DirReady { existed: true });
    start = start.advance(Event::Size(None));
    assert_eq!(start.phase(), StartPhase::CreateLog);
    start = start.advance(Event::Done);
    start = start.advance(Event::Spawned { pid: None });
    assert_eq!(start.phase(), StartPhase::UndoFile);
    assert_eq!(
        start.request(),
        Request::RemoveFile { path: "/tmp/pmr/logs/nopid.log".to_string() }
    );
    start = start.advance(Event::Done);
    assert!(start.is_finished());
    assert_eq!(
        start.outcome(),
        Some(Err(Error::Other("Failed to get process ID".to_string())))
    );
}

#[test]
fn start_rotates_a_large_log_left_behind() {
    let (manager, mut sim) = setup();
    sim.dirs.insert("/tmp/pmr/logs".to_string());
    sim.files.insert("/tmp/pmr/logs/job.log".to_string(), "x".repeat(2000));
    sim.start(&manager, "job", "echo", &["again"]).unwrap();
    assert_eq!(sim.files["/tmp/pmr/logs/job.1.log"].len(), 2000);
    assert_eq!(sim.files["/tmp/pmr/logs/job.log"], "again\n");
    assert!(sim.asked.contains(&"RotateLog".to_string()));
}

#[test]
fn start_keeps_a_small_log_unrotated() {
    let (manager, mut sim) = setup();
    sim.dirs.insert("/tmp/pmr/logs".to_string());
    sim.files.insert("/tmp/pmr/logs/job.log".to_string(), "small".to_string());
    sim.start(&manager, "job", "echo", &["again"]).unwrap();
    assert!(!sim.files.contains_key("/tmp/pmr/logs/job.1.log"));
    assert!(!sim.asked.contains(&"RotateLog".to_string()));
}

#[test]
fn start_uses_given_directories() {
    let (manager, mut sim) = setup();
    let mut env = EnvVars::new();
    env.insert("KEY".to_string(), "value".to_string());
    let start = manager.start_process(
        "custom",
        "sleep",
        vec!["9".to_string()],
        env,
        Some("/srv/app".to_string()),
        Some("/var/log/app".to_string()),
        "/work",
    );
    assert_eq!(start.request(), Request::FindRecord { name: "custom".to_string() });
    sim.run_start(start).0.unwrap();
    let record = sim.find("custom").unwrap();
    assert_eq!(record.working_dir, "/srv/app");
    assert_eq!(record.log_path, "/var/log/app/custom.log");
    assert_eq!(record.env_vars.get("KEY"), Some(&"value".to_string()));
    assert!(sim.dirs.contains("/var/log/app"));
}

#[test]
fn stop_of_unknown_process_is_not_found() {
    let (manager, mut sim) = setup();
    let result = sim.stop(&manager, "nobody");
    assert_eq!(result, Err(Error::ProcessNotFound("nobody".to_string())));
    assert_eq!(result.unwrap_err().to_string(), "Process 'nobody' not found");
}

#[test]
fn stop_of_record_without_pid_is_invalid_state() {
    let (manager, mut sim) = setup();
    sim.start(&manager, "job", "sleep", &["5"]).unwrap();
    sim.records[0].pid = None;
    let result = sim.stop(&manager, "job");
    assert_eq!(
        result,
        Err(Error::InvalidProcessState("Process 'job' has no PID".to_string()))
    );
    assert_eq!(
        result.unwrap_err().to_string(),
        "Invalid process state: Process 'job' has no PID"
    );
}

#[test]
fn stop_without_tracked_handle_signals_by_pid() {
    let (manager, mut sim) = setup();
    sim.start(&manager, "job", "sleep", &["5"]).unwrap();
    sim.tracker.untrack(4000);
    sim.asked.clear();
    assert_eq!(sim.stop(&manager, "job").unwrap(), "Process 'job' stopped");
    assert_eq!(sim.asked, vec!["FindRecord", "TakeHandle", "Signal", "Sleep", "UpdateStatus"]);
    assert_eq!(sim.find("job").unwrap().status, ProcessStatus::Stopped);
}

#[test]
fn stop_whose_signal_fails_reports_it() {
    let (manager, mut sim) = setup();
    sim.start(&manager, "job", "sleep", &["5"]).unwrap();
    sim.tracker.untrack(4000);
    sim.alive.clear();
    let result = sim.stop(&manager, "job");
    assert_eq!(
        result,
        Err(Error::Other("Failed to stop process 'job' with PID 4000".to_string()))
    );
    assert_eq!(sim.find("job").unwrap().status, ProcessStatus::Running);
}

#[test]
fn stop_whose_kill_fails_puts_the_handle_back() {
    let (manager, mut sim) = setup();
    sim.start(&manager, "job", "sleep", &["5"]).unwrap();
    sim.fail_kill = true;
    let result = sim.stop(&manager, "job");
    assert_eq!(
        result,
        Err(Error::Other(
            "Failed to stop process 'job' with PID 4000: operation not permitted".to_string()
        ))
    );
    assert!(sim.tracker.is_tracking(4000));
    assert_eq!(sim.held, None);
    assert_eq!(sim.find("job").unwrap().status, ProcessStatus::Running);
}

#[test]
fn delete_stops_a_live_process_first() {
    let (manager, mut sim) = setup();
    sim.start(&manager, "job", "sleep", &["5"]).unwrap();
    assert_eq!(sim.delete(&manager, "job").unwrap(), "Process 'job' deleted");
    assert!(!sim.alive.contains(&4000));
    assert!(sim.records.is_empty());
    assert_eq!(sim.tracker.len(), 0);
}

#[test]
fn delete_of_unknown_process_is_not_found() {
    let (manager, mut sim) = setup();
    assert_eq!(
        sim.delete(&manager, "nobody"),
        Err(Error::ProcessNotFound("nobody".to_string()))
    );
}

#[test]
fn delete_ends_with_the_failure_of_the_stop() {
    let (manager, mut sim) = setup();
    sim.start(&manager, "job", "sleep", &["5"]).unwrap();
    sim.fail_kill = true;
    assert!(matches!(sim.delete(&manager, "job"), Err(Error::Other(_))));
    assert_eq!(sim.records.len(), 1);
}

#[test]
fn delete_succeeds_when_the_log_cannot_be_removed() {
    let (manager, mut sim) = setup();
    sim.start(&manager, "job", "echo", &["x"]).unwrap();
    sim.fail_remove_file = true;
    assert_eq!(sim.delete(&manager, "job").unwrap(), "Process 'job' deleted");
    assert!(sim.records.is_empty());
    assert!(sim.files.contains_key("/tmp/pmr/logs/job.log"));
}

#[test]
fn restart_starts_again_with_the_same_launch() {
    let (manager, mut sim) = setup();
    let start = manager.start_process(
        "job",
        "sleep",
        vec!["5".to_string()],
        EnvVars::new(),
        Some("/srv/app".to_string()),
        Some("/var/log/app".to_string()),
        "/work",
    );
    sim.run_start(start).0.unwrap();
    let old = sim.find("job").unwrap();
    let message = sim.restart(&manager, "job").unwrap();
    assert_eq!(message, "Process 'job' restarted. Process 'job' started with PID 4001");
    let new = sim.find("job").unwrap();
    assert_ne!(new.id, old.id);
    assert_eq!(new.pid, Some(4001));
    assert_eq!(new.command, old.command);
    assert_eq!(new.args, old.args);
    assert_eq!(new.working_dir, "/srv/app");
    assert_eq!(new.log_path, "/var/log/app/job.log");
    assert_eq!(sim.records.len(), 1);
    assert!(!sim.alive.contains(&4000));
    assert!(sim.alive.contains(&4001));
}

#[test]
fn restart_of_unknown_process_is_not_found() {
    let (manager, mut sim) = setup();
    assert_eq!(
        sim.restart(&manager, "nobody"),
        Err(Error::ProcessNotFound("nobody".to_string()))
    );
}

#[test]
fn status_reconciles_a_process_that_exited() {
    let (manager, mut sim) = setup();
    sim.start(&manager, "job", "sleep", &["5"]).unwrap();
    sim.alive.clear();
    let first = sim.status(&manager, "job").unwrap();
    assert_eq!(first.status, ProcessStatus::Stopped);
    let stored = sim.find("job").unwrap();
    assert_eq!(stored.status, ProcessStatus::Stopped);
    sim.asked.clear();
    let second = sim.status(&manager, "job").unwrap();
    assert_eq!(second.status, ProcessStatus::Stopped);
    assert_eq!(sim.asked, vec!["FindRecord", "Probe"]);
    assert_eq!(sim.find("job").unwrap().updated_at, stored.updated_at);
}

#[test]
fn status_keeps_failed_and_fails_the_pidless() {
    let (manager, mut sim) = setup();
    sim.start(&manager, "a", "sleep", &["5"]).unwrap();
    sim.start(&manager, "b", "sleep", &["5"]).unwrap();
    sim.records[0].status = ProcessStatus::Failed;
    sim.records[1].pid = None;
    assert_eq!(sim.status(&manager, "b").unwrap().status, ProcessStatus::Failed);
    assert_eq!(sim.status(&manager, "a").unwrap().status, ProcessStatus::Failed);
    assert_eq!(sim.find("a").unwrap().pid, None);
    assert_eq!(
        sim.status(&manager, "nobody"),
        Err(Error::ProcessNotFound("nobody".to_string()))
    );
}

#[test]
fn list_reconciles_every_record() {
    let (manager, mut sim) = setup();
    sim.start(&manager, "one", "sleep", &["5"]).unwrap();
    sim.start(&manager, "two", "echo", &["x"]).unwrap();
    sim.start(&manager, "three", "sleep", &["5"]).unwrap();
    sim.alive.remove(&4000);
    let listed = sim.list(&manager).unwrap();
    let names: Vec<&str> = listed.iter().map(|r| r.name.as_str()).collect();
    assert_eq!(names, vec!["three", "two", "one"]);
    assert_eq!(listed[0].status, ProcessStatus::Running);
    assert_eq!(listed[1].status, ProcessStatus::Stopped);
    assert_eq!(listed[2].status, ProcessStatus::Stopped);
    assert_eq!(sim.find("one").unwrap().status, ProcessStatus::Stopped);
    assert!(sim.list(&manager_with(small_rotation())).unwrap().len() == 3);
}

#[test]
fn list_of_empty_store_is_empty() {
    let (manager, mut sim) = setup();
    assert_eq!(sim.list(&manager).unwrap().len(), 0);
}

#[test]
fn clear_of_finished_spares_the_running() {
    let (manager, mut sim) = setup();
    sim.start(&manager, "running", "sleep", &["10"]).unwrap();
    sim.start(&manager, "finished", "echo", &["test"]).unwrap();
    let result = sim.clear(&manager, false).unwrap();
    assert_eq!(result.operation_type, "stopped/failed processes");
    assert_eq!(result.cleared_count, 1);
    assert_eq!(result.cleared_processes, vec!["finished".to_string()]);
    assert_eq!(result.failed_processes.len(), 0);
    assert_eq!(sim.records.len(), 1);
    assert_eq!(sim.records[0].name, "running");
    assert!(sim.alive.contains(&4000));
}

#[test]
fn clear_all_removes_every_record() {
    let (manager, mut sim) = setup();
    sim.start(&manager, "stopped", "echo", &["Hello"]).unwrap();
    sim.start(&manager, "running", "sleep", &["10"]).unwrap();
    let result = sim.clear(&manager, true).unwrap();
    assert_eq!(result.cleared_count, 2);
    assert_eq!(result.cleared_processes.len(), 2);
    assert!(result.cleared_processes.contains(&"stopped".to_string()));
    assert!(result.cleared_processes.contains(&"running".to_string()));
    assert_eq!(result.failed_processes.len(), 0);
    assert_eq!(result.operation_type, "all processes");
    assert!(sim.records.is_empty());
    assert!(sim.alive.is_empty());
    assert!(sim.files.is_empty());
}

#[test]
fn clear_of_nothing_clears_nothing() {
    let (manager, mut sim) = setup();
    let result = sim.clear(&manager, false).unwrap();
    assert_eq!(result.cleared_count, 0);
    assert!(result.cleared_processes.is_empty());
    assert!(result.failed_processes.is_empty());
}

#[test]
fn clear_all_falls_back_on_the_signal_when_the_stop_fails() {
    let (manager, mut sim) = setup();
    sim.start(&manager, "stubborn", "sleep", &["10"]).unwrap();
    sim.fail_kill = true;
    let result = sim.clear(&manager, true).unwrap();
    assert_eq!(result.cleared_processes, vec!["stubborn".to_string()]);
    assert!(sim.records.is_empty());
    assert!(!sim.alive.contains(&4000));
    assert!(sim.asked.contains(&"Signal".to_string()));
}

#[test]
fn logs_give_the_last_lines() {
    let (manager, mut sim) = setup();
    sim.start(&manager, "job", "echo", &["x"]).unwrap();
    sim.files.insert("/tmp/pmr/logs/job.log".to_string(), "one\ntwo\r\nthree\nfour\n".to_string());
    assert_eq!(sim.logs(&manager, "job", Some(2)).unwrap(), "three\nfour");
    assert_eq!(sim.logs(&manager, "job", Some(9)).unwrap(), "one\ntwo\nthree\nfour");
    assert_eq!(sim.logs(&manager, "job", Some(0)).unwrap(), "");
    assert_eq!(sim.logs(&manager, "job", None).unwrap(), "one\ntwo\r\nthree\nfour\n");
    assert_eq!(
        sim.logs(&manager, "nobody", None),
        Err(Error::ProcessNotFound("nobody".to_string()))
    );
    sim.files.clear();
    assert_eq!(
        sim.logs(&manager, "job", None),
        Err(Error::Other("Failed to read log file: No such file or directory".to_string()))
    );
}

#[test]
fn rotated_logs_come_newest_first_under_headings() {
    let (manager, mut sim) = setup();
    sim.start(&manager, "job", "echo", &["x"]).unwrap();
    sim.files.insert("/tmp/pmr/logs/job.1.log".to_string(), "newest".to_string());
    sim.files.insert("/tmp/pmr/logs/job.3.log".to_string(), "oldest".to_string());
    sim.files.insert("/tmp/pmr/logs/job.4.log".to_string(), "beyond".to_string());
    let mut operation = manager.get_rotated_logs("job");
    while !operation.is_finished() {
        let event = sim.answer(operation.request());
        operation = operation.advance(event);
    }
    assert_eq!(
        operation.outcome(),
        Some(Ok(LogOutput::Files(vec![
            "=== /tmp/pmr/logs/job.1.log ===\nnewest".to_string(),
            "=== /tmp/pmr/logs/job.3.log ===\noldest".to_string(),
        ])))
    );
}

#[test]
fn rotation_on_demand_reports_success() {
    let (manager, mut sim) = setup();
    sim.start(&manager, "job", "echo", &["x"]).unwrap();
    let mut operation = manager.rotate_process_logs("job");
    while !operation.is_finished() {
        let event = sim.answer(operation.request());
        operation = operation.advance(event);
    }
    assert_eq!(
        operation.outcome(),
        Some(Ok(LogOutput::Text("Log rotation completed for process 'job'".to_string())))
    );
    assert_eq!(sim.files["/tmp/pmr/logs/job.1.log"], "x\n");
    assert_eq!(sim.files["/tmp/pmr/logs/job.log"], "");
}

#[test]
fn rotation_status_reports_size_and_backups() {
    let (manager, mut sim) = setup();
    sim.start(&manager, "job", "echo", &["x"]).unwrap();
    sim.files.insert("/tmp/pmr/logs/job.log".to_string(), "y".repeat(1500));
    sim.files.insert("/tmp/pmr/logs/job.2.log".to_string(), "old".to_string());
    let mut operation = manager.get_log_rotation_status("job");
    while !operation.is_finished() {
        let event = sim.answer(operation.request());
        operation = operation.advance(event);
    }
    assert_eq!(
        operation.outcome(),
        Some(Ok(LogOutput::Text(
            "Log file: /tmp/pmr/logs/job.log\nCurrent size: 1500 bytes\nNeeds rotation: Yes\nRotated files: 1"
                .to_string()
        )))
    );
}

#[test]
fn events_that_answer_nothing_change_nothing() {
    let (manager, _sim) = setup();
    let mut start =
        manager.start_process("job", "sleep", Vec::new(), EnvVars::new(), None, None, "/work");
    start = start.advance(Event::Alive(true));
    assert_eq!(start.phase(), StartPhase::CheckName);
    start = start.advance(Event::Failed(Error::Database("locked".to_string())));
    assert_eq!(start.outcome(), Some(Err(Error::Database("locked".to_string()))));
    start = start.advance(Event::Done);
    assert!(start.is_finished());
}

#[test]
fn start_takes_a_failed_probe_for_not_alive() {
    let (manager, _sim) = setup();
    let mut start =
        manager.start_process("job", "sleep", Vec::new(), EnvVars::new(), None, None, "/work");
    start = start.advance(Event::Record(None));
    start = start.advance(Event::DirReady { existed: false });
    start = start.advance(Event::Size(None));
    start = start.advance(Event::Done);
    start = start.advance(Event::Spawned { pid: Some(31) });
    assert_eq!(start.request(), Request::Track { pid: 31 });
    start = start.advance(Event::Done);
    assert_eq!(start.request(), Request::Sleep { millis: 200 });
    start = start.advance(Event::Done);
    assert_eq!(start.request(), Request::Probe { pid: 31 });
    start = start.advance(Event::Failed(Error::Other("no such probe".to_string())));
    match start.request() {
        Request::InsertRecord { record } => {
            assert_eq!(record.status, ProcessStatus::Stopped);
            assert_eq!(record.pid, Some(31));
            assert!(record.created_at.secs > 1_600_000_000);
            assert_eq!(record.created_at, record.updated_at);
        }
        other => panic!("unexpected {:?}", other),
    }
    start = start.advance(Event::Done);
    assert_eq!(
        start.outcome(),
        Some(Ok("Process 'job' started with PID 31 but exited quickly".to_string()))
    );
}

#[test]
fn start_at_a_given_instant_stamps_the_record() {
    let (manager, _sim) = setup();
    let at = pmr::database::Timestamp { secs: 1_700_000_000, nanos: 5 };
    let mut start =
        manager.start_process("job", "sleep", Vec::new(), EnvVars::new(), None, None, "/work");
    for event in [
        Event::Record(None),
        Event::DirReady { existed: true },
        Event::Size(Some(10)),
        Event::Done,
        Event::Spawned { pid: Some(8) },
        Event::Done,
        Event::Done,
        Event::Alive(true),
    ] {
        start = start.advance_at(event, at);
    }
    match start.request() {
        Request::InsertRecord { record } => {
            assert_eq!(record.created_at, at);
            assert_eq!(record.updated_at, at);
            assert_eq!(record.status, ProcessStatus::Running);
        }
        other => panic!("unexpected {:?}", other),
    }
}

#[test]
fn restart_fails_when_the_stop_fails() {
    let (manager, mut sim) = setup();
    sim.start(&manager, "job", "sleep", &["5"]).unwrap();
    sim.fail_kill = true;
    let result = sim.restart(&manager, "job");
    assert_eq!(
        result,
        Err(Error::Other(
            "Failed to stop process 'job' with PID 4000: operation not permitted".to_string()
        ))
    );
    assert_eq!(sim.records.len(), 1);
    assert!(sim.alive.contains(&4000));
}

#[test]
fn restart_of_a_process_at_rest_skips_the_stop() {
    let (manager, mut sim) = setup();
    sim.start(&manager, "job", "echo", &["x"]).unwrap();
    sim.asked.clear();
    let message = sim.restart(&manager, "job").unwrap();
    assert_eq!(
        message,
        "Process 'job' restarted. Process 'job' started with PID 4001 but exited quickly"
    );
    assert!(!sim.asked.contains(&"TakeHandle".to_string()));
    assert!(!sim.asked.contains(&"Sleep".to_string()) || sim.asked.iter().filter(|a| *a == "Sleep").count() == 1);
}

#[test]
fn start_fails_when_the_log_directory_cannot_be_made() {
    let (manager, mut sim) = setup();
    sim.fail_ensure_dir = true;
    let result = sim.start(&manager, "job", "sleep", &["5"]);
    assert_eq!(result, Err(Error::Io("read-only file system".to_string())));
    assert_eq!(result.unwrap_err().to_string(), "IO error: read-only file system");
    assert_eq!(sim.asked, vec!["FindRecord", "EnsureDir"]);
    assert!(sim.records.is_empty());
}

#[test]
fn start_takes_back_the_directory_when_the_log_cannot_be_made() {
    let (manager, mut sim) = setup();
    sim.fail_create_file = true;
    let result = sim.start(&manager, "job", "sleep", &["5"]);
    assert_eq!(result, Err(Error::Io("disk full".to_string())));
    assert_eq!(
        sim.asked,
        vec!["FindRecord", "EnsureDir", "FileSize", "CreateFile", "RemoveDirIfEmpty"]
    );
    assert!(sim.dirs.is_empty());
    assert!(sim.files.is_empty());
}

#[test]
fn start_reports_a_log_that_cannot_be_opened_as_it_is() {
    let (manager, _sim) = setup();
    let mut start =
        manager.start_process("job", "sleep", Vec::new(), EnvVars::new(), None, None, "/work");
    for event in [
        Event::Record(None),
        Event::DirReady { existed: true },
        Event::Size(None),
        Event::Done,
        Event::Failed(Error::Io("too many open files".to_string())),
        Event::Done,
    ] {
        start = start.advance(event);
    }
    assert_eq!(start.outcome(), Some(Err(Error::Io("too many open files".to_string()))));
}
