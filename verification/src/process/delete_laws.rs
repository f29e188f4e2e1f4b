//! What a whole delete leaves behind in the store.

use crate::exchange::Event;
use crate::process::delete::{DeletePhase, DeleteView};
use crate::world::{Protocol, World, follows, lemma_invariant_holds, state_after, world_after};
use vstd::prelude::*;

verus! {

/// The delete protocol as the model sees it.
pub open spec fn delete_protocol() -> Protocol<DeleteView> {
    Protocol { request: |s: DeleteView| s.request(), step: |s: DeleteView, e: Event| s.step(e) }
}

impl DeleteView {
    /// The delete has seen the store delete the record.
    pub open spec fn record_gone(self) -> bool {
        self.phase == DeletePhase::RemoveLog || (self.phase == DeletePhase::Done && self.failure
            is None)
    }
}

/// A step of a delete touches no record but its own, adds none, and a
/// delete that the store confirmed leaves no record under the name.
pub proof fn lemma_delete_step_frame(state: DeleteView, world: World, event: Event, next: World)
    requires
        state.well_formed(),
        world.answers(state.request(), event, next),
        state.record_gone() ==> !world.records.contains_key(state.name),
    ensures
        forall|n: Seq<char>|
            n != state.name ==> (#[trigger] next.records.contains_key(n)
                == world.records.contains_key(n)) && (world.records.contains_key(n)
                ==> next.records[n] == world.records[n]),
        next.records.contains_key(state.name) ==> world.records.contains_key(state.name),
        state.step(event).record_gone() ==> !next.records.contains_key(state.name),
        state.step(event).well_formed(),
        state.step(event).name == state.name,
{
    state.lemma_step_keeps_well_formed(event);
}

/// Whether the store of `now` differs from that of `before` at most in
/// the record called `name`, and holds that record only if `before` did.
pub open spec fn touches_only(name: Seq<char>, before: World, now: World) -> bool {
    &&& forall|n: Seq<char>|
        n != name ==> (#[trigger] now.records.contains_key(n) == before.records.contains_key(n))
            && (before.records.contains_key(n) ==> now.records[n] == before.records[n])
    &&& now.records.contains_key(name) ==> before.records.contains_key(name)
}

impl DeleteView {
    /// What the store of the surroundings `now` looks like at this state of
    /// a delete that began in the surroundings `before`.
    pub open spec fn matches_world(self, before: World, now: World) -> bool {
        &&& self.well_formed()
        &&& touches_only(self.name, before, now)
        &&& self.record_gone() ==> !now.records.contains_key(self.name)
            && before.records.contains_key(self.name)
    }
}

/// One step of a delete keeps the store as the state says it is.
proof fn lemma_delete_step(
    before: World,
    state: DeleteView,
    world: World,
    event: Event,
    next: World,
)
    requires
        state.matches_world(before, world),
        world.answers(state.request(), event, next),
    ensures
        state.step(event).name == state.name,
        state.step(event).matches_world(before, next),
{
    lemma_delete_step_frame(state, world, event, next);
    assert forall|n: Seq<char>| n != state.name implies (#[trigger] next.records.contains_key(n)
        == before.records.contains_key(n)) && (before.records.contains_key(n) ==> next.records[n]
        == before.records[n]) by {
        assert(world.records.contains_key(n) == before.records.contains_key(n));
    }
}

/// A delete that has ended in success has removed the record of its
/// process from the store. Whether it succeeded or not, and at every
/// moment, it has added no record and left every other record as it was.
pub proof fn lemma_delete_removes_the_record(
    name: Seq<char>,
    world: World,
    trace: Seq<(Event, World)>,
)
    requires
        follows(delete_protocol(), DeleteView::initial(name), world, trace),
    ensures
        ({
            let end = state_after(delete_protocol(), DeleteView::initial(name), trace);
            let after = world_after(world, trace);
            &&& touches_only(name, world, after)
            &&& end.phase == DeletePhase::Done && end.failure is None
                ==> !after.records.contains_key(name) && world.records.contains_key(name)
        }),
{
    let protocol = delete_protocol();
    let start = DeleteView::initial(name);
    let inv = |s: DeleteView, w: World| s.name == name && s.matches_world(world, w);
    assert forall|s: DeleteView, w: World, e: Event, n: World|
        inv(s, w) && #[trigger] w.answers((protocol.request)(s), e, n) implies inv(
        (protocol.step)(s, e),
        n,
    ) by {
        lemma_delete_step(world, s, w, e, n);
    }
    lemma_invariant_holds(protocol, inv, start, world, trace);
}

impl DeleteView {
    /// The most requests that the delete can still make.
    pub open spec fn steps_left(self) -> nat {
        match self.phase {
            DeletePhase::Find => 13,
            DeletePhase::Probe => 12,
            DeletePhase::Stopping => 5 + self.stop.steps_left(),
            DeletePhase::Fallback => 4,
            DeletePhase::FallbackSettle => 3,
            DeletePhase::Untrack => 3,
            DeletePhase::Delete => 2,
            DeletePhase::RemoveLog => 1,
            DeletePhase::Done => 0,
        }
    }

    /// Every answer to the pending request brings the delete closer to its
    /// end.
    pub proof fn lemma_progresses(self, world: World, event: Event, next: World)
        requires
            self.well_formed(),
            world.answers(self.request(), event, next),
        ensures
            self.step(event).well_formed(),
            self.step(event).steps_left() < self.steps_left(),
    {
        self.lemma_step_keeps_well_formed(event);
        if self.phase == DeletePhase::Stopping {
            self.stop.lemma_progresses(world, event, next);
        }
    }
}

/// A delete ends: no course of a delete has more than thirteen answered
/// requests, the stop of the process included.
pub proof fn lemma_delete_ends(name: Seq<char>, world: World, trace: Seq<(Event, World)>)
    requires
        follows(delete_protocol(), DeleteView::initial(name), world, trace),
    ensures
        trace.len() <= 13,
{
    lemma_delete_course(DeleteView::initial(name), world, trace);
}

/// The length of a course of a delete and the requests left at its end do
/// not exceed the requests left at its start.
pub proof fn lemma_delete_course(state: DeleteView, world: World, trace: Seq<(Event, World)>)
    requires
        state.well_formed(),
        follows(delete_protocol(), state, world, trace),
    ensures
        state_after(delete_protocol(), state, trace).well_formed(),
        trace.len() + state_after(delete_protocol(), state, trace).steps_left()
            <= state.steps_left(),
    decreases trace.len(),
{
    let protocol = delete_protocol();
    if trace.len() > 0 {
        assert(world.answers((protocol.request)(state), trace[0].0, trace[0].1));
        state.lemma_progresses(world, trace[0].0, trace[0].1);
        lemma_delete_course(state.step(trace[0].0), trace[0].1, trace.drop_first());
    }
}

} // verus!
