//! That a question to the logs ends.

use crate::exchange::Event;
use crate::log_rotation::{log_location, lemma_backup_paths_len, lemma_rotated_paths_len};
use crate::process::logs::{LogTask, LogsPhase, LogsView};
use crate::world::{Protocol, World, follows, state_after};
use vstd::prelude::*;

verus! {

/// A log protocol as the model sees it.
pub open spec fn logs_protocol() -> Protocol<LogsView> {
    Protocol { request: |s: LogsView| s.request(), step: |s: LogsView, e: Event| s.step(e) }
}

impl LogsView {
    /// The most requests that the protocol can still make: at most one for
    /// the record, one for the log, and two for each backup in the window,
    /// to look for it and to read it.
    pub open spec fn steps_left(self) -> nat {
        let window = self.rotation.max_files as nat;
        match self.phase {
            LogsPhase::Find => 2 * window + 3,
            LogsPhase::StatLive => 2 * window + 2,
            LogsPhase::StatBackup => (self.candidates.len() - self.index + window) as nat,
            LogsPhase::ReadBackup => (self.files.len() - self.index) as nat,
            LogsPhase::ReadLive => 1,
            LogsPhase::Rotate => 1,
            LogsPhase::Done => 0,
        }
    }

    /// Every answer to the pending request brings the protocol closer to
    /// its end, and leaves it well formed.
    pub proof fn lemma_progresses(self, world: World, event: Event, next: World)
        requires
            self.well_formed(),
            world.answers(self.request(), event, next),
        ensures
            self.step(event).well_formed(),
            self.step(event).rotation == self.rotation,
            self.step(event).steps_left() < self.steps_left(),
    {
        let window = self.rotation.max_files as nat;
        let after = self.step(event);
        match self.phase {
            LogsPhase::Find => {
                match event {
                    Event::Record(Some(record)) => {
                        let found = LogsView { log_path: record.log_path@, ..self };
                        if self.task == LogTask::Rotated {
                            found.lemma_scanning(window);
                        }
                    },
                    _ => {},
                }
            },
            LogsPhase::StatLive => {
                match event {
                    Event::Size(size) => {
                        let sized = LogsView { size, ..self };
                        sized.lemma_scanning(window);
                    },
                    _ => {},
                }
            },
            LogsPhase::StatBackup => {
                let exists = match event {
                    Event::Size(size) => size is Some,
                    _ => false,
                };
                let noted = LogsView {
                    present: self.present.push(exists),
                    index: self.index + 1,
                    ..self
                };
                match log_location(self.log_path) {
                    Ok((dir, stem)) => {
                        lemma_backup_paths_len(dir, stem, 0, window);
                        lemma_rotated_paths_len(dir, stem, noted.present, 0, window);
                    },
                    Err(_) => {},
                }
            },
            _ => {},
        }
    }

    /// The scan of the backups begins well formed and with at most two
    /// requests for each backup in the window.
    proof fn lemma_scanning(self, window: nat)
        requires
            window == self.rotation.max_files,
            self.failure is None,
            self.phase == LogsPhase::Find || self.phase == LogsPhase::StatLive,
            self.task == LogTask::Rotated || self.task == LogTask::Status,
        ensures
            self.scanning().well_formed(),
            self.scanning().rotation == self.rotation,
            self.scanning().steps_left() <= 2 * window,
    {
        match log_location(self.log_path) {
            Ok((dir, stem)) => {
                lemma_backup_paths_len(dir, stem, 0, window);
                lemma_rotated_paths_len(dir, stem, Seq::<bool>::empty(), 0, window);
            },
            Err(_) => {},
        }
    }
}

/// The length of a course of a log protocol and the requests left at its
/// end do not exceed the requests left at its start: a question to the
/// logs ends after at most three requests and two for each backup in the
/// window.
pub proof fn lemma_logs_course(state: LogsView, world: World, trace: Seq<(Event, World)>)
    requires
        state.well_formed(),
        follows(logs_protocol(), state, world, trace),
    ensures
        state_after(logs_protocol(), state, trace).well_formed(),
        state_after(logs_protocol(), state, trace).rotation == state.rotation,
        trace.len() + state_after(logs_protocol(), state, trace).steps_left()
            <= state.steps_left(),
    decreases trace.len(),
{
    let protocol = logs_protocol();
    if trace.len() > 0 {
        assert(world.answers((protocol.request)(state), trace[0].0, trace[0].1));
        state.lemma_progresses(world, trace[0].0, trace[0].1);
        lemma_logs_course(state.step(trace[0].0), trace[0].1, trace.drop_first());
    }
}

} // verus!
