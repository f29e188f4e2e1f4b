//! What a whole start leaves behind: one new record, or nothing.

use crate::database::{RecordView, Timestamp};
use crate::error::ErrorView;
use crate::exchange::{Event, RequestView};
use crate::process::start::{StartPhase, StartView};
use crate::world::{
    Protocol,
    World,
    follows,
    lemma_course_is_bounded,
    lemma_invariant_holds,
    state_after,
    world_after,
};
use vstd::prelude::*;

verus! {

/// The start protocol as the model sees it; `clock` gives the instant at
/// which an event is handled.
pub open spec fn start_protocol(clock: spec_fn(StartView, Event) -> Timestamp) -> Protocol<
    StartView,
> {
    Protocol {
        request: |s: StartView| s.request(),
        step: |s: StartView, e: Event| s.step(e, clock(s, e)),
    }
}

impl StartView {
    /// A start before its first step.
    pub open spec fn is_fresh(self) -> bool {
        &&& self.phase == StartPhase::CheckName
        &&& !self.created_log_dir
        &&& !self.created_log_file
        &&& !self.inserted_record
        &&& self.pid is None
        &&& self.failure is None
        &&& self.warnings.len() == 0
    }

    /// The same start at another moment: what it was asked to start has not
    /// changed.
    pub open spec fn same_subject(self, other: StartView) -> bool {
        &&& self.id == other.id
        &&& self.name == other.name
        &&& self.command == other.command
        &&& self.args == other.args
        &&& self.env_vars == other.env_vars
        &&& self.working_dir == other.working_dir
        &&& self.log_dir == other.log_dir
        &&& self.log_path == other.log_path
        &&& self.rotation == other.rotation
    }

    /// What the surroundings `now` look like at this state of a start that
    /// began in the surroundings `before`.
    pub open spec fn matches_world(self, before: World, now: World) -> bool {
        let fresh = !before.files.contains_key(self.log_path);
        let dirs_made = now.dirs == before.dirs.insert(self.log_dir) && self.created_log_dir
            == !before.dirs.contains(self.log_dir);
        let file_made = now.files.contains_key(self.log_path) && now.files[self.log_path]
            == self.log_dir && (fresh ==> now.files == before.files.insert(
            self.log_path,
            self.log_dir,
        ));
        let clean = self.warnings.len() == 0;
        &&& self.well_formed()
        &&& now.held == before.held
        &&& now.tracker == match self.phase {
            StartPhase::Grace | StartPhase::Probe | StartPhase::Insert => before.tracker.insert(
                self.pid->0,
            ),
            StartPhase::Done | StartPhase::UndoFile | StartPhase::UndoDir => if self.pid is Some {
                before.tracker.insert(self.pid->0)
            } else {
                before.tracker
            },
            _ => before.tracker,
        }
        &&& match self.phase {
            StartPhase::CheckName => now == before && clean && !self.created_log_dir
                && !self.created_log_file && !self.inserted_record && self.pid is None,
            StartPhase::EnsureDir => now == before && clean && !self.created_log_dir
                && !self.created_log_file && !self.inserted_record && self.pid is None
                && !before.records.contains_key(self.name),
            StartPhase::StatLog | StartPhase::Rotate => {
                &&& clean
                &&& !self.inserted_record
                &&& !self.created_log_file
                &&& self.pid is None
                &&& !before.records.contains_key(self.name)
                &&& now.records == before.records
                &&& dirs_made
                &&& now.files == before.files
                &&& self.phase == StartPhase::Rotate ==> !fresh
            },
            StartPhase::CreateLog => {
                &&& clean
                &&& !self.inserted_record
                &&& !self.created_log_file
                &&& self.pid is None
                &&& !before.records.contains_key(self.name)
                &&& now.records == before.records
                &&& dirs_made
                &&& fresh ==> now.files == before.files
            },
            StartPhase::Spawn | StartPhase::Track | StartPhase::Grace | StartPhase::Probe
            | StartPhase::Insert => {
                &&& clean
                &&& !self.inserted_record
                &&& self.created_log_file
                &&& self.phase == StartPhase::Spawn ==> self.pid is None
                &&& !before.records.contains_key(self.name)
                &&& now.records == before.records
                &&& dirs_made
                &&& file_made
            },
            StartPhase::UndoRecord => false,
            StartPhase::UndoFile => {
                &&& !self.inserted_record
                &&& self.created_log_file
                &&& now.records == before.records
                &&& dirs_made
                &&& clean ==> file_made
            },
            StartPhase::UndoDir => {
                &&& !self.inserted_record
                &&& self.created_log_dir
                &&& now.records == before.records
                &&& dirs_made
                &&& clean ==> (self.created_log_file ==> !now.files.contains_key(self.log_path))
                    && (fresh ==> now.files == before.files)
            },
            StartPhase::Done => match self.failure {
                None => {
                    &&& clean
                    &&& self.inserted_record
                    &&& !before.records.contains_key(self.name)
                    &&& now.records == before.records.insert(self.name, self.record())
                    &&& dirs_made
                    &&& file_made
                },
                Some(_) => {
                    &&& !self.inserted_record
                    &&& now.records == before.records
                    &&& clean ==> (self.created_log_file ==> !now.files.contains_key(
                        self.log_path,
                    )) && (fresh ==> now.files == before.files && now.dirs == before.dirs)
                },
            },
        }
    }
}

/// One step of a start keeps the surroundings as the state says they are.
proof fn lemma_start_step(
    start: StartView,
    before: World,
    state: StartView,
    world: World,
    event: Event,
    now: Timestamp,
    next: World,
)
    requires
        before.well_formed(),
        state.same_subject(start),
        state.matches_world(before, world),
        world.answers(state.request(), event, next),
    ensures
        state.step(event, now).same_subject(start),
        state.step(event, now).matches_world(before, next),
{
    let after = state.step(event, now);
    let fresh = !before.files.contains_key(state.log_path);
    match state.phase {
        StartPhase::UndoFile => {
            if event == Event::Done && state.warnings.len() == 0 {
                if fresh {
                    assert(next.files =~= before.files);
                    if after.phase == StartPhase::Done {
                        assert(next.dirs =~= before.dirs);
                    }
                }
            }
        },
        StartPhase::UndoDir => {
            if event == Event::Done && state.warnings.len() == 0 && fresh {
                assert(world.dir_is_empty(state.log_dir)) by {
                    assert forall|p: Seq<char>| #[trigger]
                        world.files.contains_key(p) implies world.files[p] != state.log_dir by {
                        assert(before.files.contains_key(p));
                        assert(before.dirs.contains(before.files[p]));
                    }
                }
                assert(next.dirs =~= before.dirs);
            }
        },
        StartPhase::StatLog => {
            if after.phase == StartPhase::Done && state.warnings.len() == 0 && fresh {
                assert(next.dirs =~= before.dirs);
            }
        },
        StartPhase::Rotate => {
            if after.phase == StartPhase::Done && state.warnings.len() == 0 && fresh {
                assert(next.dirs =~= before.dirs);
            }
        },
        StartPhase::CreateLog => {
            if after.phase == StartPhase::Done && state.warnings.len() == 0 && fresh {
                assert(next.dirs =~= before.dirs);
            }
        },
        _ => {},
    }
}

/// Rollback completeness. A start that has ended either succeeded, and
/// then the store holds exactly one record more, the one of this start,
/// the log file exists in its directory, and the child's handle is in the
/// tracker; or it failed, and then the store is as it was. Where the
/// rollback gave no warning, the log file that this start created is gone;
/// and where no file lay at the log path before, the files and directories
/// are as they were: nothing that the start made is left.
pub proof fn lemma_start_is_all_or_nothing(
    clock: spec_fn(StartView, Event) -> Timestamp,
    start: StartView,
    world: World,
    trace: Seq<(Event, World)>,
)
    requires
        start.is_fresh(),
        world.well_formed(),
        follows(start_protocol(clock), start, world, trace),
        state_after(start_protocol(clock), start, trace).phase == StartPhase::Done,
    ensures
        ({
            let end = state_after(start_protocol(clock), start, trace);
            let after = world_after(world, trace);
            let fresh = !world.files.contains_key(start.log_path);
            &&& end.same_subject(start)
            &&& after.held == world.held
            &&& match end.failure {
                None => {
                    &&& !world.records.contains_key(start.name)
                    &&& after.records == world.records.insert(start.name, end.record())
                    &&& after.dirs == world.dirs.insert(start.log_dir)
                    &&& after.files.contains_key(start.log_path)
                    &&& after.files[start.log_path] == start.log_dir
                    &&& fresh ==> after.files == world.files.insert(start.log_path, start.log_dir)
                    &&& end.pid is Some
                    &&& after.tracker == world.tracker.insert(end.pid->0)
                },
                Some(_) => {
                    &&& after.records == world.records
                    &&& end.warnings.len() == 0 && end.created_log_file ==> !after.files.contains_key(
                        start.log_path,
                    )
                    &&& end.warnings.len() == 0 && fresh ==> after.files == world.files && after.dirs
                        == world.dirs
                    &&& end.pid is None ==> after.tracker == world.tracker
                },
            }
        }),
{
    let protocol = start_protocol(clock);
    let inv = |s: StartView, w: World| s.same_subject(start) && s.matches_world(world, w);
    assert forall|s: StartView, w: World, e: Event, n: World|
        inv(s, w) && #[trigger] w.answers((protocol.request)(s), e, n) implies inv(
        (protocol.step)(s, e),
        n,
    ) by {
        lemma_start_step(start, world, s, w, e, clock(s, e), n);
    }
    lemma_invariant_holds(protocol, inv, start, world, trace);
}

/// A start under a name that the store already holds fails with
/// `ProcessAlreadyExists` as soon as the store has answered, and leaves
/// the surroundings, the store's records among them, as they were. Where
/// the store cannot be asked, the start fails with the store's failure.
pub proof fn lemma_second_start_is_refused(
    clock: spec_fn(StartView, Event) -> Timestamp,
    start: StartView,
    world: World,
    trace: Seq<(Event, World)>,
)
    requires
        start.is_fresh(),
        world.records.contains_key(start.name),
        follows(start_protocol(clock), start, world, trace),
        trace.len() > 0,
    ensures
        ({
            let end = state_after(start_protocol(clock), start, trace);
            &&& trace.len() == 1
            &&& end.phase == StartPhase::Done
            &&& world_after(world, trace) == world
            &&& match trace[0].0 {
                Event::Failed(e) => end.failure == Some(e@),
                _ => end.failure == Some(ErrorView::ProcessAlreadyExists(start.name)),
            }
        }),
{
    let protocol = start_protocol(clock);
    let first = (protocol.step)(start, trace[0].0);
    assert(world.answers((protocol.request)(start), trace[0].0, trace[0].1));
    assert(first.phase == StartPhase::Done);
    let rest = trace.drop_first();
    assert(follows(protocol, first, trace[0].1, rest));
    if rest.len() > 0 {
        assert((protocol.request)(first) == RequestView::Finished);
        assert(trace[0].1.answers((protocol.request)(first), rest[0].0, rest[0].1));
    }
    assert(state_after(protocol, first, rest) == first);
}

impl StartView {
    /// The most requests that the start can still make.
    pub open spec fn steps_left(self) -> nat {
        match self.phase {
            StartPhase::CheckName => 13,
            StartPhase::EnsureDir => 12,
            StartPhase::StatLog => 11,
            StartPhase::Rotate => 10,
            StartPhase::CreateLog => 9,
            StartPhase::Spawn => 8,
            StartPhase::Track => 7,
            StartPhase::Grace => 6,
            StartPhase::Probe => 5,
            StartPhase::Insert => 4,
            StartPhase::UndoRecord => 3,
            StartPhase::UndoFile => 2,
            StartPhase::UndoDir => 1,
            StartPhase::Done => 0,
        }
    }

    /// Every answer to the pending request brings the start closer to its
    /// end.
    pub proof fn lemma_progresses(self, world: World, event: Event, now: Timestamp, next: World)
        requires
            world.answers(self.request(), event, next),
        ensures
            self.step(event, now).steps_left() < self.steps_left(),
    {
    }
}

/// A start ends: no course of a start has more than thirteen answered
/// requests, the rollback included.
pub proof fn lemma_start_ends(
    clock: spec_fn(StartView, Event) -> Timestamp,
    start: StartView,
    world: World,
    trace: Seq<(Event, World)>,
)
    requires
        follows(start_protocol(clock), start, world, trace),
    ensures
        trace.len() <= start.steps_left() <= 13,
{
    let protocol = start_protocol(clock);
    let measure = |s: StartView| s.steps_left();
    assert forall|s: StartView, w: World, e: Event, n: World| #[trigger]
        w.answers((protocol.request)(s), e, n) implies measure((protocol.step)(s, e)) < measure(
        s,
    ) by {
        s.lemma_progresses(w, e, clock(s, e), n);
    }
    lemma_course_is_bounded(protocol, measure, start, world, trace);
}

impl StartView {
    /// What the store `now` looks like at this state of a start that began
    /// with the store `base`: as it was, until the start has succeeded,
    /// and then with the record of the start added.
    pub open spec fn records_match(
        self,
        base: Map<Seq<char>, RecordView>,
        now: Map<Seq<char>, RecordView>,
    ) -> bool {
        if self.phase == StartPhase::Done && self.failure is None {
            now == base.insert(self.name, self.record())
        } else {
            now == base && !self.inserted_record && self.phase != StartPhase::UndoRecord
        }
    }

    /// One step of a start keeps the store as the state says it is.
    pub proof fn lemma_records_match(
        self,
        base: Map<Seq<char>, RecordView>,
        world: World,
        event: Event,
        now: Timestamp,
        next: World,
    )
        requires
            self.well_formed(),
            self.records_match(base, world.records),
            world.answers(self.request(), event, next),
        ensures
            self.step(event, now).records_match(base, next.records),
            self.step(event, now).name == self.name,
            self.step(event, now).id == self.id,
            self.step(event, now).same_subject(self),
    {
    }
}

} // verus!
