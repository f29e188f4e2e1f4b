//! A model of what surrounds the supervisor: the store, the log files and
//! directories, and the tracker of child handles. Contracts of the protocols
//! say what they ask for and how they move on; the laws proved over this
//! model say what a whole run of a protocol leaves behind.
//!
//! The model takes the protocol to be the only one acting on the names it
//! touches: what another actor does at the same time is not covered.

use crate::database::RecordView;
use crate::exchange::{Event, RequestView, records_view};
use vstd::prelude::*;

verus! {

/// The surroundings at one moment.
pub struct World {
    /// The store: records by name.
    pub records: Map<Seq<char>, RecordView>,
    /// The directories that exist.
    pub dirs: Set<Seq<char>>,
    /// The files that exist, each with the directory that holds it.
    pub files: Map<Seq<char>, Seq<char>>,
    /// The pids whose handle is in the tracker.
    pub tracker: Set<u32>,
    /// The pids whose handle was taken out of the tracker and is held.
    pub held: Set<u32>,
}

impl World {
    /// Each record is stored under its name, and each file lies in a
    /// directory that exists.
    pub open spec fn well_formed(self) -> bool {
        &&& forall|n: Seq<char>| #[trigger]
            self.records.contains_key(n) ==> self.records[n].name == n
        &&& forall|p: Seq<char>| #[trigger]
            self.files.contains_key(p) ==> self.dirs.contains(self.files[p])
    }

    /// No file lies in `dir`.
    pub open spec fn dir_is_empty(self, dir: Seq<char>) -> bool {
        forall|p: Seq<char>| #[trigger] self.files.contains_key(p) ==> self.files[p] != dir
    }

    /// Whether the store lists `r`: always if `only_finished` is off, else
    /// if `r` is at rest.
    pub open spec fn selects(only_finished: bool, r: RecordView) -> bool {
        !only_finished || r.status.is_finished()
    }

    /// `listed` is a listing of the store: each selected record once, as
    /// stored, and nothing else.
    pub open spec fn lists(self, listed: Seq<RecordView>, only_finished: bool) -> bool {
        &&& forall|i: int|
            0 <= i < listed.len() ==> self.records.contains_key((#[trigger] listed[i]).name)
                && self.records[listed[i].name] == listed[i] && Self::selects(
                only_finished,
                listed[i],
            )
        &&& forall|n: Seq<char>| #[trigger]
            self.records.contains_key(n) && Self::selects(only_finished, self.records[n])
                ==> exists|i: int| 0 <= i < listed.len() && (#[trigger] listed[i]).name == n
        &&& forall|i: int, j: int|
            0 <= i < j < listed.len() ==> (#[trigger] listed[i]).name != (#[trigger] listed[j]).name
    }

    /// The store without the records whose identifier is `id`.
    pub open spec fn without_id(self, id: Seq<char>) -> Map<Seq<char>, RecordView> {
        Map::new(
            |n: Seq<char>| self.records.contains_key(n) && self.records[n].id != id,
            |n: Seq<char>| self.records[n],
        )
    }

    /// Whether the program, carrying out `request` in these surroundings,
    /// can observe `event` and leave the surroundings `next`. A request
    /// that fails changes nothing.
    pub open spec fn answers(self, request: RequestView, event: Event, next: World) -> bool {
        match request {
            RequestView::FindRecord { name } => next == self && match event {
                Event::Record(Some(r)) => self.records.contains_key(name) && r@
                    == self.records[name],
                Event::Record(None) => !self.records.contains_key(name),
                Event::Failed(_) => true,
                _ => false,
            },
            RequestView::ListRecords => next == self && match event {
                Event::Records(v) => self.lists(records_view(v@), false),
                Event::Failed(_) => true,
                _ => false,
            },
            RequestView::ListFinishedRecords => next == self && match event {
                Event::Records(v) => self.lists(records_view(v@), true),
                Event::Failed(_) => true,
                _ => false,
            },
            RequestView::InsertRecord { record } => match event {
                Event::Done => !self.records.contains_key(record.name) && next == (World {
                    records: self.records.insert(record.name, record),
                    ..self
                }),
                Event::Failed(_) => next == self,
                _ => false,
            },
            RequestView::UpdateStatus { name, status, pid } => match event {
                Event::Done => if self.records.contains_key(name) {
                    &&& next.records.contains_key(name)
                    &&& next == (World {
                        records: self.records.insert(
                            name,
                            RecordView {
                                status,
                                pid,
                                updated_at: next.records[name].updated_at,
                                ..self.records[name]
                            },
                        ),
                        ..self
                    })
                } else {
                    next == self
                },
                Event::Failed(_) => next == self,
                _ => false,
            },
            RequestView::DeleteRecord { name } => match event {
                Event::Deleted(found) => found == self.records.contains_key(name) && next
                    == (World { records: self.records.remove(name), ..self }),
                Event::Failed(_) => next == self,
                _ => false,
            },
            RequestView::DeleteRecordById { id } => match event {
                Event::Deleted(found) => found == (self.without_id(id) != self.records) && next
                    == (World { records: self.without_id(id), ..self }),
                Event::Failed(_) => next == self,
                _ => false,
            },
            RequestView::EnsureDir { dir } => match event {
                Event::DirReady { existed } => existed == self.dirs.contains(dir) && next
                    == (World { dirs: self.dirs.insert(dir), ..self }),
                Event::Failed(_) => next == self,
                _ => false,
            },
            RequestView::FileSize { path } => next == self && match event {
                Event::Size(size) => size is Some == self.files.contains_key(path),
                Event::Failed(_) => true,
                _ => false,
            },
            RequestView::RotateLog { path } => match event {
                Event::Done => {
                    &&& next.records == self.records
                    &&& next.dirs == self.dirs
                    &&& next.tracker == self.tracker
                    &&& next.held == self.held
                    &&& next.files.contains_key(path) == self.files.contains_key(path)
                    &&& next.files.contains_key(path) ==> next.files[path] == self.files[path]
                },
                Event::Failed(_) => next == self,
                _ => false,
            },
            RequestView::CreateFile { dir, path } => match event {
                Event::Done => next == (World { files: self.files.insert(path, dir), ..self }),
                Event::Failed(_) => next == self,
                _ => false,
            },
            RequestView::RemoveFile { path } => match event {
                Event::Done => next == (World { files: self.files.remove(path), ..self }),
                Event::Failed(_) => next == self,
                _ => false,
            },
            RequestView::RemoveDirIfEmpty { dir } => match event {
                Event::Done => if self.dir_is_empty(dir) {
                    next == (World { dirs: self.dirs.remove(dir), ..self })
                } else {
                    next == self
                },
                Event::Failed(_) => next == self,
                _ => false,
            },
            RequestView::ReadFile { path } => next == self && match event {
                Event::Content(_) => self.files.contains_key(path),
                Event::Failed(_) => true,
                _ => false,
            },
            RequestView::Spawn { .. } => next == self && match event {
                Event::Spawned { .. } => true,
                Event::Failed(_) => true,
                _ => false,
            },
            RequestView::Track { pid } => event == Event::Done && next == (World {
                tracker: self.tracker.insert(pid),
                ..self
            }),
            RequestView::Untrack { pid } => event == Event::Done && next == (World {
                tracker: self.tracker.remove(pid),
                ..self
            }),
            RequestView::TakeHandle { pid } => match event {
                Event::Taken(found) => found == self.tracker.contains(pid) && next == (World {
                    tracker: self.tracker.remove(pid),
                    held: if found {
                        self.held.insert(pid)
                    } else {
                        self.held
                    },
                    ..self
                }),
                _ => false,
            },
            RequestView::KillHandle { pid } => match event {
                Event::Done => next == (World { held: self.held.remove(pid), ..self }),
                Event::Failed(_) => next == self,
                _ => false,
            },
            RequestView::ReturnHandle { pid } => event == Event::Done && next == (World {
                tracker: if self.held.contains(pid) {
                    self.tracker.insert(pid)
                } else {
                    self.tracker
                },
                held: self.held.remove(pid),
                ..self
            }),
            RequestView::Probe { pid } => next == self && event is Alive,
            RequestView::Signal { pid } => next == self && event is Signaled,
            RequestView::Sleep { millis } => next == self && event == Event::Done,
            RequestView::Finished => false,
        }
    }
}

/// A protocol as the model sees it: the request that a state asks for, and
/// the state that follows an event.
#[verifier::reject_recursive_types(S)]
pub struct Protocol<S> {
    pub request: spec_fn(S) -> RequestView,
    pub step: spec_fn(S, Event) -> S,
}

/// Whether `trace` can be the course of the protocol from the state
/// `state` in the surroundings `world`: each entry is an event that the
/// pending request can bring, with the surroundings that it leaves.
pub open spec fn follows<S>(
    protocol: Protocol<S>,
    state: S,
    world: World,
    trace: Seq<(Event, World)>,
) -> bool
    decreases trace.len(),
{
    trace.len() == 0 || (world.answers((protocol.request)(state), trace[0].0, trace[0].1)
        && follows(
        protocol,
        (protocol.step)(state, trace[0].0),
        trace[0].1,
        trace.drop_first(),
    ))
}

/// The state of the protocol after the events of `trace`.
pub open spec fn state_after<S>(protocol: Protocol<S>, state: S, trace: Seq<(Event, World)>) -> S
    decreases trace.len(),
{
    if trace.len() == 0 {
        state
    } else {
        state_after(protocol, (protocol.step)(state, trace[0].0), trace.drop_first())
    }
}

/// The surroundings after `trace`.
pub open spec fn world_after(world: World, trace: Seq<(Event, World)>) -> World {
    if trace.len() == 0 {
        world
    } else {
        trace.last().1
    }
}

/// A relation between state and surroundings that holds at the start of a
/// course and that every step keeps holds at its end.
pub proof fn lemma_invariant_holds<S>(
    protocol: Protocol<S>,
    inv: spec_fn(S, World) -> bool,
    state: S,
    world: World,
    trace: Seq<(Event, World)>,
)
    requires
        inv(state, world),
        follows(protocol, state, world, trace),
        forall|s: S, w: World, e: Event, n: World|
            inv(s, w) && #[trigger] w.answers((protocol.request)(s), e, n) ==> inv(
                (protocol.step)(s, e),
                n,
            ),
    ensures
        inv(state_after(protocol, state, trace), world_after(world, trace)),
    decreases trace.len(),
{
    if trace.len() > 0 {
        let next_state = (protocol.step)(state, trace[0].0);
        let next_world = trace[0].1;
        let rest = trace.drop_first();
        assert(world.answers((protocol.request)(state), trace[0].0, next_world));
        lemma_invariant_holds(protocol, inv, next_state, next_world, rest);
        if rest.len() > 0 {
            assert(rest.last() == trace.last());
        }
    }
}

/// A course cannot be longer than a measure allows that every answered
/// request lowers: the length of the course and the measure at its end
/// together do not exceed the measure at its start.
pub proof fn lemma_course_is_bounded<S>(
    protocol: Protocol<S>,
    measure: spec_fn(S) -> nat,
    state: S,
    world: World,
    trace: Seq<(Event, World)>,
)
    requires
        follows(protocol, state, world, trace),
        forall|s: S, w: World, e: Event, n: World| #[trigger]
            w.answers((protocol.request)(s), e, n) ==> measure((protocol.step)(s, e)) < measure(s),
    ensures
        trace.len() + measure(state_after(protocol, state, trace)) <= measure(state),
    decreases trace.len(),
{
    if trace.len() > 0 {
        let next_state = (protocol.step)(state, trace[0].0);
        assert(world.answers((protocol.request)(state), trace[0].0, trace[0].1));
        lemma_course_is_bounded(protocol, measure, next_state, trace[0].1, trace.drop_first());
    }
}

} // verus!
