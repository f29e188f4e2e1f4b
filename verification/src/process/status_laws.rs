//! What a reading of a status does to the store.

use crate::exchange::Event;
use crate::database::RecordView;
use crate::exchange::records_view;
use crate::process::status::{ListPhase, ListView, StatusPhase, StatusView};
use crate::world::{
    Protocol,
    World,
    follows,
    lemma_course_is_bounded,
    state_after,
    world_after,
};
use vstd::prelude::*;

verus! {

/// The protocol of a reading as the model sees it.
pub open spec fn status_protocol() -> Protocol<StatusView> {
    Protocol { request: |s: StatusView| s.request(), step: |s: StatusView, e: Event| s.step(e) }
}

/// Whether each liveness probe in `trace` said `alive`.
pub open spec fn probes_say(trace: Seq<(Event, World)>, alive: bool) -> bool {
    forall|i: int|
        0 <= i < trace.len() ==> ((#[trigger] trace[i]).0 matches Event::Alive(a) ==> a == alive)
}

impl StatusView {
    /// What the store of the surroundings `now` looks like at this state of
    /// a reading that began in the surroundings `before`, where the probe
    /// says `alive`.
    pub open spec fn matches_world(self, before: World, now: World, alive: bool) -> bool {
        let stored = before.records[self.name];
        &&& self.well_formed()
        &&& now.dirs == before.dirs
        &&& now.files == before.files
        &&& now.tracker == before.tracker
        &&& now.held == before.held
        &&& match self.phase {
            StatusPhase::Find => now == before,
            StatusPhase::Probe => {
                &&& now == before
                &&& before.records.contains_key(self.name)
                &&& self.record == Some(stored)
            },
            StatusPhase::Update => {
                &&& now == before
                &&& before.records.contains_key(self.name)
                &&& self.record == Some(stored.reconciled(alive))
                &&& stored.needs_update(alive)
            },
            StatusPhase::Done => match self.failure {
                Some(_) => now == before,
                None => {
                    &&& before.records.contains_key(self.name)
                    &&& self.record == Some(stored.reconciled(alive))
                    &&& if stored.needs_update(alive) {
                        &&& now.records.contains_key(self.name)
                        &&& now.records == before.records.insert(
                            self.name,
                            now.records[self.name],
                        )
                        &&& now.records[self.name].status == stored.reconciled(alive).status
                        &&& !now.records[self.name].needs_update(alive)
                    } else {
                        now == before
                    }
                },
            },
        }
    }
}

/// One step of a reading keeps the store as the state says it is.
proof fn lemma_status_step(
    before: World,
    state: StatusView,
    world: World,
    event: Event,
    next: World,
    alive: bool,
)
    requires
        state.matches_world(before, world, alive),
        world.answers(state.request(), event, next),
        event matches Event::Alive(a) ==> a == alive,
    ensures
        state.step(event).name == state.name,
        state.step(event).matches_world(before, next, alive),
{
}

/// Idempotence of reconciliation on read. A reading that has ended in
/// success hands out the stored record reconciled against the probe, and
/// has written to the store only if that changed the status; the record
/// in the store then needs no further correction. So a second reading
/// against the same probe result hands out the same status and leaves the
/// store, the instant of the last update included, as it is.
pub proof fn lemma_reading_corrects_once(
    name: Seq<char>,
    world: World,
    trace: Seq<(Event, World)>,
    alive: bool,
)
    requires
        follows(status_protocol(), StatusView::initial(name), world, trace),
        probes_say(trace, alive),
        state_after(status_protocol(), StatusView::initial(name), trace).phase
            == StatusPhase::Done,
        state_after(status_protocol(), StatusView::initial(name), trace).failure is None,
    ensures
        ({
            let end = state_after(status_protocol(), StatusView::initial(name), trace);
            let after = world_after(world, trace);
            &&& world.records.contains_key(name)
            &&& end.record == Some(world.records[name].reconciled(alive))
            &&& !world.records[name].needs_update(alive) ==> after == world
            &&& after.records.contains_key(name)
            &&& after.records[name].status == world.records[name].reconciled(alive).status
            &&& !after.records[name].needs_update(alive)
        }),
{
    lemma_reading_run(name, world, StatusView::initial(name), world, trace, alive);
}

/// The relation between a reading and the store holds along a whole
/// course.
proof fn lemma_reading_run(
    name: Seq<char>,
    before: World,
    state: StatusView,
    world: World,
    trace: Seq<(Event, World)>,
    alive: bool,
)
    requires
        state.name == name,
        state.matches_world(before, world, alive),
        follows(status_protocol(), state, world, trace),
        probes_say(trace, alive),
    ensures
        state_after(status_protocol(), state, trace).name == name,
        state_after(status_protocol(), state, trace).matches_world(
            before,
            world_after(world, trace),
            alive,
        ),
    decreases trace.len(),
{
    let protocol = status_protocol();
    if trace.len() > 0 {
        let event = trace[0].0;
        let next = trace[0].1;
        let rest = trace.drop_first();
        assert(world.answers((protocol.request)(state), event, next));
        lemma_status_step(before, state, world, event, next, alive);
        assert forall|i: int| 0 <= i < rest.len() implies ((#[trigger] rest[i]).0 matches Event::Alive(
            a,
        ) ==> a == alive) by {
            assert(rest[i] == trace[i + 1]);
        }
        lemma_reading_run(name, before, state.step(event), next, rest, alive);
        if rest.len() > 0 {
            assert(rest.last() == trace.last());
        }
    }
}

impl StatusView {
    /// The most requests that the reading can still make.
    pub open spec fn steps_left(self) -> nat {
        match self.phase {
            StatusPhase::Find => 3,
            StatusPhase::Probe => 2,
            StatusPhase::Update => 1,
            StatusPhase::Done => 0,
        }
    }

    /// Every answer to the pending request brings the reading closer to
    /// its end.
    pub proof fn lemma_progresses(self, world: World, event: Event, next: World)
        requires
            world.answers(self.request(), event, next),
        ensures
            self.step(event).steps_left() < self.steps_left(),
    {
    }
}

/// A reading ends: no course of a reading has more than three answered
/// requests.
pub proof fn lemma_reading_ends(name: Seq<char>, world: World, trace: Seq<(Event, World)>)
    requires
        follows(status_protocol(), StatusView::initial(name), world, trace),
    ensures
        trace.len() <= 3,
{
    let protocol = status_protocol();
    let measure = |s: StatusView| s.steps_left();
    assert forall|s: StatusView, w: World, e: Event, n: World| #[trigger]
        w.answers((protocol.request)(s), e, n) implies measure((protocol.step)(s, e)) < measure(
        s,
    ) by {
        s.lemma_progresses(w, e, n);
    }
    lemma_course_is_bounded(protocol, measure, StatusView::initial(name), world, trace);
}

/// The protocol of a listing as the model sees it.
pub open spec fn list_protocol() -> Protocol<ListView> {
    Protocol { request: |s: ListView| s.request(), step: |s: ListView, e: Event| s.step(e) }
}

impl ListView {
    /// The most requests that the listing can still make, once the store
    /// has listed its records: a probe and a write for each record not yet
    /// reconciled.
    pub open spec fn steps_left(self) -> nat {
        match self.phase {
            ListPhase::List => 0,
            ListPhase::Probe => (2 * (self.records.len() - self.index)) as nat,
            ListPhase::Update => (2 * (self.records.len() - self.index) - 1) as nat,
            ListPhase::Done => 0,
        }
    }

    /// The search for the next record to treat keeps the number of records
    /// and leaves at most a probe and a write for each record from `index`
    /// on.
    pub proof fn lemma_sought_is_bounded(self, index: nat)
        requires
            index <= self.records.len(),
        ensures
            self.sought(index).phase != ListPhase::List,
            self.sought(index).records.len() == self.records.len(),
            self.failure is None ==> self.sought(index).well_formed(),
            self.sought(index).steps_left() <= 2 * (self.records.len() - index),
        decreases self.records.len() - index,
    {
        if index < self.records.len() && self.records[index as int].pid is None
            && !self.records[index as int].needs_update(false) {
            let next = ListView {
                records: self.records.update(
                    index as int,
                    self.records[index as int].reconciled(false),
                ),
                ..self
            };
            next.lemma_sought_is_bounded(index + 1);
        }
    }

    /// Once the store has listed its records, every answer to the pending
    /// request brings the listing closer to its end; and the listing of
    /// the store is the first step.
    pub proof fn lemma_progresses(self, world: World, event: Event, next: World)
        requires
            self.well_formed(),
            world.answers(self.request(), event, next),
        ensures
            self.step(event).well_formed(),
            self.step(event).phase != ListPhase::List,
            self.phase != ListPhase::List ==> self.step(event).records.len()
                == self.records.len(),
            self.phase != ListPhase::List ==> self.step(event).steps_left() < self.steps_left(),
    {
        match self.phase {
            ListPhase::List => {
                match event {
                    Event::Records(records) => {
                        let listed = ListView { records: records_view(records@), ..self };
                        listed.lemma_sought_is_bounded(0);
                    },
                    _ => {},
                }
            },
            ListPhase::Probe => {
                let alive = match event {
                    Event::Alive(alive) => alive,
                    _ => false,
                };
                let record = self.records[self.index as int];
                let settled = ListView {
                    records: self.records.update(self.index as int, record.reconciled(alive)),
                    ..self
                };
                settled.lemma_sought_is_bounded(self.index + 1);
            },
            ListPhase::Update => {
                self.lemma_sought_is_bounded(self.index + 1);
            },
            ListPhase::Done => {},
        }
    }
}

/// A listing ends: after the store has listed its records, no course has
/// more than two answered requests for each record.
pub proof fn lemma_listing_ends(state: ListView, world: World, trace: Seq<(Event, World)>)
    requires
        state.well_formed(),
        state.phase != ListPhase::List,
        follows(list_protocol(), state, world, trace),
    ensures
        state_after(list_protocol(), state, trace).well_formed(),
        state_after(list_protocol(), state, trace).phase != ListPhase::List,
        trace.len() + state_after(list_protocol(), state, trace).steps_left()
            <= state.steps_left(),
        trace.len() <= 2 * state.records.len(),
    decreases trace.len(),
{
    let protocol = list_protocol();
    if trace.len() > 0 {
        assert(world.answers((protocol.request)(state), trace[0].0, trace[0].1));
        state.lemma_progresses(world, trace[0].0, trace[0].1);
        lemma_listing_ends(state.step(trace[0].0), trace[0].1, trace.drop_first());
    }
}

/// Whether `shown` is `listed` reconciled against some probe result.
pub open spec fn reconciles(shown: RecordView, listed: RecordView) -> bool {
    exists|alive: bool| shown == #[trigger] listed.reconciled(alive)
}

/// Whether `stored` is the record `listed` with the status of `shown`,
/// whatever the instant of its last update.
pub open spec fn holds_status(stored: RecordView, shown: RecordView, listed: RecordView) -> bool {
    stored == (RecordView { status: shown.status, updated_at: stored.updated_at, ..listed })
}

impl ListView {
    /// The records before `from` are reconciled and the store holds their
    /// statuses; those from `from` on are as the store listed them, in the
    /// listing and in the store.
    pub open spec fn ready_from(
        self,
        from: nat,
        listed: Seq<RecordView>,
        before: World,
        now: World,
    ) -> bool {
        &&& self.failure is None
        &&& before.lists(listed, false)
        &&& self.records.len() == listed.len()
        &&& from <= listed.len()
        &&& forall|n: Seq<char>| #[trigger]
            now.records.contains_key(n) == before.records.contains_key(n)
        &&& forall|i: int|
            0 <= i < listed.len() ==> if i < from {
                reconciles(self.records[i], #[trigger] listed[i]) && holds_status(
                    now.records[listed[i].name],
                    self.records[i],
                    listed[i],
                )
            } else {
                self.records[i] == listed[i] && now.records[listed[i].name] == listed[i]
            }
    }

    /// What the store of the surroundings `now` looks like at this state of
    /// a listing of the records `listed`, in the surroundings `before`.
    pub open spec fn matches_world(
        self,
        listed: Seq<RecordView>,
        before: World,
        now: World,
    ) -> bool {
        self.phase != ListPhase::List && (self.failure is None ==> {
            &&& before.lists(listed, false)
            &&& self.records.len() == listed.len()
            &&& self.index <= listed.len()
            &&& self.phase == ListPhase::Done ==> self.index == listed.len()
            &&& self.phase != ListPhase::Done ==> self.index < listed.len()
            &&& forall|n: Seq<char>| #[trigger]
                now.records.contains_key(n) == before.records.contains_key(n)
            &&& forall|i: int|
                0 <= i < listed.len() ==> if i < self.index {
                    reconciles(self.records[i], #[trigger] listed[i]) && holds_status(
                        now.records[listed[i].name],
                        self.records[i],
                        listed[i],
                    )
                } else if i == self.index && self.phase == ListPhase::Update {
                    reconciles(self.records[i], listed[i]) && now.records[listed[i].name]
                        == listed[i]
                } else {
                    self.records[i] == listed[i] && now.records[listed[i].name] == listed[i]
                }
        })
    }

    /// The search for the next record to treat keeps the listing in step
    /// with the store.
    proof fn lemma_sought_matches(
        self,
        from: nat,
        listed: Seq<RecordView>,
        before: World,
        now: World,
    )
        requires
            self.ready_from(from, listed, before, now),
        ensures
            self.sought(from).matches_world(listed, before, now),
        decreases listed.len() - from,
    {
        if from < listed.len() {
            let record = self.records[from as int];
            assert(record == listed[from as int]);
            if record.pid is None {
                let settled = record.reconciled(false);
                let next = ListView { records: self.records.update(from as int, settled), ..self };
                assert(reconciles(settled, listed[from as int]));
                if record.needs_update(false) {
                    let found = ListView { phase: ListPhase::Update, index: from, ..next };
                    assert(self.sought(from) == found);
                    assert forall|i: int| 0 <= i < listed.len() implies if i < found.index {
                        reconciles(found.records[i], #[trigger] listed[i]) && holds_status(
                            now.records[listed[i].name],
                            found.records[i],
                            listed[i],
                        )
                    } else if i == found.index && found.phase == ListPhase::Update {
                        reconciles(found.records[i], listed[i]) && now.records[listed[i].name]
                            == listed[i]
                    } else {
                        found.records[i] == listed[i] && now.records[listed[i].name] == listed[i]
                    } by {
                        if i != from {
                            assert(found.records[i] == self.records[i]);
                        }
                    }
                } else {
                    assert(settled == record);
                    assert(holds_status(now.records[record.name], settled, listed[from as int]));
                    assert forall|i: int| 0 <= i < listed.len() implies if i < from + 1 {
                        reconciles(next.records[i], #[trigger] listed[i]) && holds_status(
                            now.records[listed[i].name],
                            next.records[i],
                            listed[i],
                        )
                    } else {
                        next.records[i] == listed[i] && now.records[listed[i].name] == listed[i]
                    } by {
                        if i != from {
                            assert(next.records[i] == self.records[i]);
                        }
                    }
                    next.lemma_sought_matches(from + 1, listed, before, now);
                }
            }
        }
    }
}

/// One step of a listing keeps the listing in step with the store.
proof fn lemma_listing_step(
    listed: Seq<RecordView>,
    before: World,
    state: ListView,
    world: World,
    event: Event,
    next: World,
)
    requires
        state.well_formed(),
        state.matches_world(listed, before, world),
        world.answers(state.request(), event, next),
    ensures
        state.step(event).matches_world(listed, before, next),
{
    state.lemma_progresses(world, event, next);
    let after = state.step(event);
    if state.failure is None && after.failure is None {
        let at = state.index as int;
        let record = state.records[at];
        match state.phase {
            ListPhase::Probe => {
                let alive = match event {
                    Event::Alive(alive) => alive,
                    _ => false,
                };
                assert(record == listed[at]);
                let settled = record.reconciled(alive);
                assert(reconciles(settled, listed[at]));
                let moved = ListView { records: state.records.update(at, settled), ..state };
                if record.needs_update(alive) {
                    assert(after == (ListView { phase: ListPhase::Update, ..moved }));
                    assert forall|i: int| 0 <= i < listed.len() implies if i < after.index {
                        reconciles(after.records[i], #[trigger] listed[i]) && holds_status(
                            next.records[listed[i].name],
                            after.records[i],
                            listed[i],
                        )
                    } else if i == after.index && after.phase == ListPhase::Update {
                        reconciles(after.records[i], listed[i]) && next.records[listed[i].name]
                            == listed[i]
                    } else {
                        after.records[i] == listed[i] && next.records[listed[i].name] == listed[i]
                    } by {
                        if i != at {
                            assert(after.records[i] == state.records[i]);
                        }
                    }
                } else {
                    assert(settled == record);
                    assert(holds_status(next.records[record.name], settled, listed[at]));
                    assert forall|i: int| 0 <= i < listed.len() implies if i < at + 1 {
                        reconciles(moved.records[i], #[trigger] listed[i]) && holds_status(
                            next.records[listed[i].name],
                            moved.records[i],
                            listed[i],
                        )
                    } else {
                        moved.records[i] == listed[i] && next.records[listed[i].name] == listed[i]
                    } by {
                        if i != at {
                            assert(moved.records[i] == state.records[i]);
                        }
                    }
                    moved.lemma_sought_matches((at + 1) as nat, listed, before, next);
                }
            },
            ListPhase::Update => {
                let name = listed[at].name;
                assert(record.pid == listed[at].pid) by {
                    let alive = choose|alive: bool| record == #[trigger] listed[at].reconciled(alive);
                }
                assert(record.name == name) by {
                    let alive = choose|alive: bool| record == #[trigger] listed[at].reconciled(alive);
                }
                assert(world.records.contains_key(name));
                assert(holds_status(next.records[name], record, listed[at]));
                assert forall|i: int| 0 <= i < listed.len() implies if i < at + 1 {
                    reconciles(state.records[i], #[trigger] listed[i]) && holds_status(
                        next.records[listed[i].name],
                        state.records[i],
                        listed[i],
                    )
                } else {
                    state.records[i] == listed[i] && next.records[listed[i].name] == listed[i]
                } by {
                    if i != at {
                        assert(listed[i].name != listed[at].name);
                        assert(next.records[listed[i].name] == world.records[listed[i].name]);
                    }
                }
                state.lemma_sought_matches((at + 1) as nat, listed, before, next);
            },
            _ => {},
        }
    }
}

/// The listing stays in step with the store along a whole course.
proof fn lemma_listing_run(
    listed: Seq<RecordView>,
    before: World,
    state: ListView,
    world: World,
    trace: Seq<(Event, World)>,
)
    requires
        state.well_formed(),
        state.matches_world(listed, before, world),
        follows(list_protocol(), state, world, trace),
    ensures
        state_after(list_protocol(), state, trace).matches_world(
            listed,
            before,
            world_after(world, trace),
        ),
    decreases trace.len(),
{
    let protocol = list_protocol();
    if trace.len() > 0 {
        let event = trace[0].0;
        let next = trace[0].1;
        let rest = trace.drop_first();
        assert(world.answers((protocol.request)(state), event, next));
        lemma_listing_step(listed, before, state, world, event, next);
        state.lemma_progresses(world, event, next);
        lemma_listing_run(listed, before, state.step(event), next, rest);
        if rest.len() > 0 {
            assert(rest.last() == trace.last());
        }
    }
}

/// A listing that has ended in success hands out the list of the store in
/// its order, each record reconciled against its probe, and the store
/// holds those statuses: each record in the store is the record that was
/// listed, with the status handed out. The store has the records it had.
pub proof fn lemma_listing_hands_out_the_store(world: World, trace: Seq<(Event, World)>)
    requires
        follows(list_protocol(), ListView::initial(), world, trace),
        state_after(list_protocol(), ListView::initial(), trace).phase == ListPhase::Done,
        state_after(list_protocol(), ListView::initial(), trace).failure is None,
    ensures
        trace.len() >= 1,
        trace[0].0 is Records,
        ({
            let listed = records_view(trace[0].0->Records_0@);
            let end = state_after(list_protocol(), ListView::initial(), trace);
            let after = world_after(world, trace);
            &&& world.lists(listed, false)
            &&& end.records.len() == listed.len()
            &&& forall|n: Seq<char>| #[trigger]
                after.records.contains_key(n) == world.records.contains_key(n)
            &&& forall|i: int|
                0 <= i < listed.len() ==> reconciles(end.records[i], #[trigger] listed[i])
                    && holds_status(after.records[listed[i].name], end.records[i], listed[i])
        }),
{
    let protocol = list_protocol();
    let start = ListView::initial();
    assert(trace.len() >= 1);
    let event = trace[0].0;
    let first = trace[0].1;
    let rest = trace.drop_first();
    assert(world.answers((protocol.request)(start), event, first));
    start.lemma_progresses(world, event, first);
    let begun = start.step(event);
    if event is Records {
        let listed = records_view(event->Records_0@);
        let plain = ListView { records: listed, ..start };
        assert(plain.ready_from(0, listed, world, first));
        plain.lemma_sought_matches(0, listed, world, first);
        lemma_listing_run(listed, world, begun, first, rest);
        if rest.len() > 0 {
            assert(rest.last() == trace.last());
        }
    } else {
        assert(begun.phase == ListPhase::Done && begun.failure is Some);
        assert(follows(protocol, begun, first, rest));
        if rest.len() > 0 {
            assert(first.answers((protocol.request)(begun), rest[0].0, rest[0].1));
        }
        assert(state_after(protocol, begun, rest) == begun);
    }
}

} // verus!
