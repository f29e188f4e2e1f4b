//! What a sweep leaves behind in the store.

use crate::database::{ProcessStatus, RecordView};
use crate::lifecycle::reconciled;
use crate::exchange::Event;
use crate::process::clear::{ClearPhase, ClearView};
use crate::process::delete::{DeletePhase, DeleteView};
use crate::process::delete_laws::lemma_delete_step_frame;
use crate::world::{Protocol, World, follows, lemma_invariant_holds, state_after, world_after};
use vstd::prelude::*;

verus! {

/// The clear protocol as the model sees it.
pub open spec fn clear_protocol() -> Protocol<ClearView> {
    Protocol { request: |s: ClearView| s.request(), step: |s: ClearView, e: Event| s.step(e) }
}

/// Whether one of `records` is called `name`.
pub open spec fn names(records: Seq<RecordView>, name: Seq<char>) -> bool {
    exists|i: int| 0 <= i < records.len() && (#[trigger] records[i]).name == name
}

impl ClearView {
    /// What the store of the surroundings `now` looks like at this state of
    /// a sweep that began in the surroundings `before`.
    pub open spec fn matches_world(self, before: World, now: World) -> bool {
        &&& self.well_formed()
        &&& match self.phase {
            ClearPhase::List => now == before,
            _ => if self.failure is Some {
                now == before
            } else {
                &&& before.lists(self.records, !self.all)
                &&& self.phase == ClearPhase::Done ==> self.index == self.records.len()
                &&& forall|n: Seq<char>| #[trigger]
                    now.records.contains_key(n) ==> before.records.contains_key(n)
                &&& forall|n: Seq<char>|
                    before.records.contains_key(n) && !names(self.records, n)
                        ==> #[trigger] now.records.contains_key(n) && now.records[n]
                        == before.records[n]
                &&& forall|i: int|
                    0 <= i < self.index ==> self.failed.contains((#[trigger] self.records[i]).name)
                        || !now.records.contains_key(self.records[i].name)
                &&& forall|i: int|
                    0 <= i < self.cleared.len() ==> !now.records.contains_key(
                        #[trigger] self.cleared[i],
                    )
                &&& self.phase == ClearPhase::Removing && self.removal->0.record_gone()
                    ==> !now.records.contains_key(self.records[self.index as int].name)
            },
        }
    }
}

/// One step of a sweep keeps the store as the state says it is.
proof fn lemma_clear_step(
    before: World,
    state: ClearView,
    world: World,
    event: Event,
    next: World,
)
    requires
        state.matches_world(before, world),
        world.answers(state.request(), event, next),
    ensures
        state.step(event).all == state.all,
        state.step(event).matches_world(before, next),
{
    let after = state.step(event);
    match state.phase {
        ClearPhase::List => {
            match event {
                Event::Records(records) => {
                    assert(after.matches_world(before, next));
                },
                _ => {},
            }
        },
        ClearPhase::Removing => {
            let removal = state.removal->0;
            let name = state.records[state.index as int].name;
            lemma_delete_step_frame(removal, world, event, next);
            let stepped = removal.step(event);
            assert forall|n: Seq<char>| #[trigger]
                next.records.contains_key(n) implies before.records.contains_key(n) by {
                if n != name {
                    assert(world.records.contains_key(n));
                }
            }
            assert forall|n: Seq<char>|
                before.records.contains_key(n) && !names(after.records, n)
                    implies #[trigger] next.records.contains_key(n) && next.records[n]
                == before.records[n] by {
                if n == name {
                    assert(state.records[state.index as int].name == n);
                }
                assert(world.records.contains_key(n));
            }
            assert forall|i: int| 0 <= i < state.index implies state.failed.contains(
                (#[trigger] state.records[i]).name,
            ) || !next.records.contains_key(state.records[i].name) by {
                assert(state.records[i].name != state.records[state.index as int].name);
            }
            assert forall|i: int| 0 <= i < state.cleared.len() implies !next.records.contains_key(
                #[trigger] state.cleared[i],
            ) by {
                let n = state.cleared[i];
                if n != name {
                    assert(next.records.contains_key(n) == world.records.contains_key(n));
                }
            }
            if stepped.phase == DeletePhase::Done {
                if stepped.failure is None {
                    assert(stepped.record_gone());
                    assert forall|i: int| 0 <= i < after.cleared.len() implies
                        !next.records.contains_key(#[trigger] after.cleared[i]) by {
                        if i < state.cleared.len() {
                            assert(after.cleared[i] == state.cleared[i]);
                        }
                    }
                    assert forall|i: int| 0 <= i < after.index implies after.failed.contains(
                        (#[trigger] after.records[i]).name,
                    ) || !next.records.contains_key(after.records[i].name) by {
                        if i < state.index {
                            assert(state.failed.contains(state.records[i].name)
                                || !next.records.contains_key(state.records[i].name));
                        }
                    }
                } else {
                    let grown = state.failed.push(name);
                    assert(grown[state.failed.len() as int] == name);
                    assert forall|i: int| 0 <= i < after.index implies after.failed.contains(
                        (#[trigger] after.records[i]).name,
                    ) || !next.records.contains_key(after.records[i].name) by {
                        if i < state.index {
                            if state.failed.contains(state.records[i].name) {
                                let j = choose|j: int|
                                    0 <= j < state.failed.len() && state.failed[j]
                                        == state.records[i].name;
                                assert(grown[j] == state.records[i].name);
                            }
                        } else {
                            assert(grown.contains(name));
                        }
                    }
                }
                if after.phase == ClearPhase::Removing {
                    let started = after.removal->0;
                    assert(started == DeleteView::of_record(after.records[after.index as int]));
                    assert(!started.record_gone());
                }
            }
        },
        ClearPhase::Done => {},
    }
}

/// A sweep of the processes at rest touches no other: at every moment of
/// the sweep, each record that was not stopped or failed when the sweep
/// began is in the store as it was. A sweep never adds a record.
pub proof fn lemma_clear_spares_unfinished(
    world: World,
    trace: Seq<(Event, World)>,
    name: Seq<char>,
)
    requires
        follows(clear_protocol(), ClearView::initial(false), world, trace),
        world.records.contains_key(name),
        !world.records[name].status.is_finished(),
    ensures
        world_after(world, trace).records.contains_key(name),
        world_after(world, trace).records[name] == world.records[name],
{
    let protocol = clear_protocol();
    let start = ClearView::initial(false);
    let inv = |s: ClearView, w: World| !s.all && s.matches_world(world, w);
    assert forall|s: ClearView, w: World, e: Event, n: World|
        inv(s, w) && #[trigger] w.answers((protocol.request)(s), e, n) implies inv(
        (protocol.step)(s, e),
        n,
    ) by {
        lemma_clear_step(world, s, w, e, n);
    }
    lemma_invariant_holds(protocol, inv, start, world, trace);
    let end = state_after(protocol, start, trace);
    let after = world_after(world, trace);
    if end.phase != ClearPhase::List && end.failure is None {
        if names(end.records, name) {
            let i = choose|i: int| 0 <= i < end.records.len() && (#[trigger] end.records[i]).name
                == name;
            assert(World::selects(true, end.records[i]));
        }
        assert(after.records.contains_key(name));
    }
}

/// A sweep of the processes at rest never deletes a running process: a
/// record whose reconciled status is `Running`, and which the store does
/// not hold as stopped, is in the store as it was at every moment of the
/// sweep. (The sweep selects by the stored status: a record stored as
/// stopped is swept even if its process is found alive.)
pub proof fn lemma_clear_spares_running(
    world: World,
    trace: Seq<(Event, World)>,
    name: Seq<char>,
    alive: bool,
)
    requires
        follows(clear_protocol(), ClearView::initial(false), world, trace),
        world.records.contains_key(name),
        world.records[name].status != ProcessStatus::Stopped,
        reconciled(world.records[name].status, world.records[name].pid, alive)
            == ProcessStatus::Running,
    ensures
        world_after(world, trace).records.contains_key(name),
        world_after(world, trace).records[name] == world.records[name],
{
    lemma_clear_spares_unfinished(world, trace, name);
}

/// A sweep of all processes that has ended deletes every record,
/// whatever its status, but those it names as failed: a record still in
/// the store is one of the failed, and where none failed the store is
/// empty. The processes it names as cleared are gone.
pub proof fn lemma_clear_all_deletes_everything(world: World, trace: Seq<(Event, World)>)
    requires
        follows(clear_protocol(), ClearView::initial(true), world, trace),
        state_after(clear_protocol(), ClearView::initial(true), trace).phase == ClearPhase::Done,
        state_after(clear_protocol(), ClearView::initial(true), trace).failure is None,
    ensures
        ({
            let end = state_after(clear_protocol(), ClearView::initial(true), trace);
            let after = world_after(world, trace);
            &&& forall|n: Seq<char>| #[trigger]
                after.records.contains_key(n) ==> end.failed.contains(n)
                    && world.records.contains_key(n)
            &&& forall|i: int|
                0 <= i < end.cleared.len() ==> !after.records.contains_key(
                    #[trigger] end.cleared[i],
                )
            &&& end.failed.len() == 0 ==> after.records == Map::<
                Seq<char>,
                RecordView,
            >::empty()
        }),
{
    let protocol = clear_protocol();
    let start = ClearView::initial(true);
    let inv = |s: ClearView, w: World| s.all && s.matches_world(world, w);
    assert forall|s: ClearView, w: World, e: Event, n: World|
        inv(s, w) && #[trigger] w.answers((protocol.request)(s), e, n) implies inv(
        (protocol.step)(s, e),
        n,
    ) by {
        lemma_clear_step(world, s, w, e, n);
    }
    lemma_invariant_holds(protocol, inv, start, world, trace);
    let end = state_after(protocol, start, trace);
    let after = world_after(world, trace);
    assert forall|n: Seq<char>| #[trigger] after.records.contains_key(n) implies end.failed.contains(
        n,
    ) && world.records.contains_key(n) by {
        assert(world.records.contains_key(n));
        assert(World::selects(false, world.records[n]));
        let i = choose|i: int| 0 <= i < end.records.len() && (#[trigger] end.records[i]).name == n;
        assert(end.records[i].name == n);
        assert(i < end.index);
    }
    if end.failed.len() == 0 {
        assert forall|n: Seq<char>| !after.records.contains_key(n) by {
            if after.records.contains_key(n) {
                assert(end.failed.contains(n));
            }
        }
        assert(after.records =~= Map::<Seq<char>, RecordView>::empty());
    }
}

impl ClearView {
    /// The most requests that the sweep can still make, once the store has
    /// listed the records to clear: those left of the delete at hand, and
    /// up to fourteen for each record after it.
    pub open spec fn steps_left(self) -> nat {
        match self.phase {
            ClearPhase::List => 0,
            ClearPhase::Removing => ((self.records.len() - self.index - 1) * 14
                + self.removal->0.steps_left()) as nat,
            ClearPhase::Done => 0,
        }
    }

    /// Every answer to the pending request leaves the sweep well formed.
    /// The listing of the store is the first step; after it, every answer
    /// brings the sweep closer to its end.
    pub proof fn lemma_progresses(self, world: World, event: Event, next: World)
        requires
            self.well_formed(),
            world.answers(self.request(), event, next),
        ensures
            self.step(event).well_formed(),
            self.step(event).phase != ClearPhase::List,
            self.phase != ClearPhase::List ==> self.step(event).records.len()
                == self.records.len(),
            self.phase != ClearPhase::List ==> self.step(event).steps_left() < self.steps_left(),
    {
        if self.phase == ClearPhase::Removing {
            self.removal->0.lemma_progresses(world, event, next);
        }
    }
}

/// A sweep ends: after the store has listed the records to clear, no
/// course has more than fourteen answered requests for each record.
pub proof fn lemma_sweep_ends(state: ClearView, world: World, trace: Seq<(Event, World)>)
    requires
        state.well_formed(),
        state.phase != ClearPhase::List,
        follows(clear_protocol(), state, world, trace),
    ensures
        state_after(clear_protocol(), state, trace).well_formed(),
        state_after(clear_protocol(), state, trace).phase != ClearPhase::List,
        trace.len() + state_after(clear_protocol(), state, trace).steps_left()
            <= state.steps_left(),
        trace.len() <= 14 * state.records.len(),
    decreases trace.len(),
{
    let protocol = clear_protocol();
    if trace.len() > 0 {
        assert(world.answers((protocol.request)(state), trace[0].0, trace[0].1));
        state.lemma_progresses(world, trace[0].0, trace[0].1);
        lemma_sweep_ends(state.step(trace[0].0), trace[0].1, trace.drop_first());
    }
    if state.phase == ClearPhase::Removing {
        assert(state.removal->0.steps_left() <= 13);
    }
}

impl ClearView {
    /// Each record that the sweep is through with is named once, as cleared
    /// or as failed, and nothing else is named.
    pub open spec fn tallied(self) -> bool {
        &&& self.cleared.len() + self.failed.len() == self.index
        &&& forall|k: int|
            0 <= k < self.cleared.len() ==> named_among(
                self.records,
                self.index,
                #[trigger] self.cleared[k],
            )
        &&& forall|k: int|
            0 <= k < self.failed.len() ==> named_among(
                self.records,
                self.index,
                #[trigger] self.failed[k],
            )
        &&& forall|i: int|
            0 <= i < self.index ==> self.cleared.contains((#[trigger] self.records[i]).name)
                || self.failed.contains(self.records[i].name)
        &&& self.cleared.no_duplicates()
        &&& self.failed.no_duplicates()
        &&& forall|k: int, l: int|
            0 <= k < self.cleared.len() && 0 <= l < self.failed.len() ==> #[trigger] self.cleared[k]
                != #[trigger] self.failed[l]
    }
}

/// Whether one of the first `count` records of `records` is called `name`.
pub open spec fn named_among(records: Seq<RecordView>, count: nat, name: Seq<char>) -> bool {
    exists|i: int| 0 <= i < count && (#[trigger] records[i]).name == name
}

/// Whether `name` is none of the names in `names`.
spec fn is_new(names: Seq<Seq<char>>, name: Seq<char>) -> bool {
    forall|k: int| 0 <= k < names.len() ==> #[trigger] names[k] != name
}

/// One step of a sweep keeps the tally as it should be.
proof fn lemma_tally_step(
    before: World,
    state: ClearView,
    world: World,
    event: Event,
    next: World,
)
    requires
        state.matches_world(before, world),
        state.phase != ClearPhase::List && state.failure is None ==> state.tallied(),
        world.answers(state.request(), event, next),
    ensures
        state.step(event).phase != ClearPhase::List && state.step(event).failure is None
            ==> state.step(event).tallied(),
{
    let after = state.step(event);
    match state.phase {
        ClearPhase::List => {
            if after.failure is None && after.phase != ClearPhase::List {
                assert(after.cleared.len() == 0 && after.failed.len() == 0);
                assert(after.index == 0);
                assert(after.tallied());
            }
        },
        ClearPhase::Removing => {
            let removal = state.removal->0;
            let name = state.records[state.index as int].name;
            let stepped = removal.step(event);
            removal.lemma_step_keeps_well_formed(event);
            if stepped.phase == DeletePhase::Done {
                assert(is_new(state.cleared, name)) by {
                    assert forall|k: int| 0 <= k < state.cleared.len() implies
                        #[trigger] state.cleared[k] != name by {
                        let i = choose|i: int|
                            0 <= i < state.index && (#[trigger] state.records[i]).name
                                == state.cleared[k];
                        assert(state.records[i].name != state.records[state.index as int].name);
                    }
                }
                assert(is_new(state.failed, name)) by {
                    assert forall|k: int| 0 <= k < state.failed.len() implies
                        #[trigger] state.failed[k] != name by {
                        let i = choose|i: int|
                            0 <= i < state.index && (#[trigger] state.records[i]).name
                                == state.failed[k];
                        assert(state.records[i].name != state.records[state.index as int].name);
                    }
                }
                let grown = if stepped.failure is None {
                    state.cleared.push(name)
                } else {
                    state.failed.push(name)
                };
                assert(grown[grown.len() - 1] == name);
                assert(after.records == state.records);
                assert(after.index == state.index + 1);
                assert forall|k: int| 0 <= k < after.cleared.len() implies named_among(
                    after.records,
                    after.index,
                    #[trigger] after.cleared[k],
                ) by {
                    if k < state.cleared.len() {
                        let i = choose|i: int|
                            0 <= i < state.index && (#[trigger] state.records[i]).name
                                == state.cleared[k];
                        assert(after.records[i].name == after.cleared[k]);
                    } else {
                        assert(after.records[state.index as int].name == after.cleared[k]);
                    }
                }
                assert forall|k: int| 0 <= k < after.failed.len() implies named_among(
                    after.records,
                    after.index,
                    #[trigger] after.failed[k],
                ) by {
                    if k < state.failed.len() {
                        let i = choose|i: int|
                            0 <= i < state.index && (#[trigger] state.records[i]).name
                                == state.failed[k];
                        assert(after.records[i].name == after.failed[k]);
                    } else {
                        assert(after.records[state.index as int].name == after.failed[k]);
                    }
                }
                assert forall|i: int| 0 <= i < after.index implies after.cleared.contains(
                    (#[trigger] after.records[i]).name,
                ) || after.failed.contains(after.records[i].name) by {
                    if i < state.index {
                        let n = state.records[i].name;
                        if state.cleared.contains(n) {
                            let k = choose|k: int|
                                0 <= k < state.cleared.len() && state.cleared[k] == n;
                            assert(after.cleared[k] == n);
                        } else {
                            let k = choose|k: int|
                                0 <= k < state.failed.len() && state.failed[k] == n;
                            assert(after.failed[k] == n);
                        }
                    } else {
                        if stepped.failure is None {
                            assert(after.cleared[after.cleared.len() - 1] == name);
                        } else {
                            assert(after.failed[after.failed.len() - 1] == name);
                        }
                    }
                }
                assert(after.cleared.no_duplicates());
                assert(after.failed.no_duplicates());
                assert forall|k: int, l: int|
                    0 <= k < after.cleared.len() && 0 <= l < after.failed.len() implies
                    #[trigger] after.cleared[k] != #[trigger] after.failed[l] by {
                    if k < state.cleared.len() && l < state.failed.len() {
                        assert(state.cleared[k] != state.failed[l]);
                    }
                }
                assert(after.tallied());
            } else {
                assert(after.cleared == state.cleared && after.failed == state.failed);
                assert(after.index == state.index && after.records == state.records);
                assert(after.tallied());
            }
        },
        ClearPhase::Done => {},
    }
}

/// A sweep, of all processes or of those at rest, that has ended in
/// success has named every record that the store listed to it exactly
/// once, as cleared or as failed, and named nothing else; and of the
/// processes that it names as cleared no record is left in the store.
pub proof fn lemma_sweep_accounts_for_each_record(
    all: bool,
    world: World,
    trace: Seq<(Event, World)>,
)
    requires
        follows(clear_protocol(), ClearView::initial(all), world, trace),
        state_after(clear_protocol(), ClearView::initial(all), trace).phase == ClearPhase::Done,
        state_after(clear_protocol(), ClearView::initial(all), trace).failure is None,
    ensures
        ({
            let end = state_after(clear_protocol(), ClearView::initial(all), trace);
            let after = world_after(world, trace);
            &&& world.lists(end.records, !all)
            &&& end.index == end.records.len()
            &&& end.tallied()
            &&& forall|i: int|
                0 <= i < end.cleared.len() ==> !after.records.contains_key(
                    #[trigger] end.cleared[i],
                )
        }),
{
    let protocol = clear_protocol();
    let start = ClearView::initial(all);
    let inv = |s: ClearView, w: World|
        s.all == all && s.matches_world(world, w) && (s.phase != ClearPhase::List && s.failure
            is None ==> s.tallied());
    assert forall|s: ClearView, w: World, e: Event, n: World|
        inv(s, w) && #[trigger] w.answers((protocol.request)(s), e, n) implies inv(
        (protocol.step)(s, e),
        n,
    ) by {
        lemma_clear_step(world, s, w, e, n);
        lemma_tally_step(world, s, w, e, n);
    }
    lemma_invariant_holds(protocol, inv, start, world, trace);
}

} // verus!
