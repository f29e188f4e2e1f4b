//! What a whole stop leaves behind.

use crate::database::ProcessStatus;
use crate::exchange::Event;
use crate::process::stop::{StopPhase, StopView};
use crate::world::{
    Protocol,
    World,
    follows,
    lemma_course_is_bounded,
    lemma_invariant_holds,
    state_after,
    world_after,
};
use vstd::prelude::*;

verus! {

/// The stop protocol as the model sees it.
pub open spec fn stop_protocol() -> Protocol<StopView> {
    Protocol {
        request: |s: StopView| s.request(),
        step: |s: StopView, e: Event| s.step(e),
    }
}

impl StopView {
    /// What the surroundings `now` look like at this state of a stop that
    /// began in the surroundings `before`.
    pub open spec fn matches_world(self, before: World, now: World) -> bool {
        let known = before.records.contains_key(self.name) && before.records[self.name].pid
            == self.pid;
        &&& self.well_formed()
        &&& now.dirs == before.dirs
        &&& now.files == before.files
        &&& match self.phase {
            StopPhase::Find => now == before && self.pid is None,
            StopPhase::Take => now == before && known,
            StopPhase::Kill | StopPhase::Return => {
                &&& known
                &&& now.records == before.records
                &&& before.tracker.contains(self.pid->0)
                &&& now.tracker == before.tracker.remove(self.pid->0)
                &&& now.held == before.held.insert(self.pid->0)
            },
            StopPhase::Signal | StopPhase::Settle => {
                &&& known
                &&& now == before
                &&& !before.tracker.contains(self.pid->0)
            },
            StopPhase::Persist => {
                &&& known
                &&& now.records == before.records
                &&& now.tracker == before.tracker.remove(self.pid->0)
                &&& now.held == before.held
            },
            StopPhase::Done => match self.failure {
                None => {
                    &&& known
                    &&& self.pid is Some
                    &&& now.records.contains_key(self.name)
                    &&& now.records == before.records.insert(self.name, now.records[self.name])
                    &&& now.records[self.name].status == ProcessStatus::Stopped
                    &&& now.records[self.name].pid == self.pid
                    &&& now.records[self.name].log_path == before.records[self.name].log_path
                    &&& now.tracker == before.tracker.remove(self.pid->0)
                    &&& now.held == before.held
                },
                Some(_) => {
                    &&& now.records == before.records
                    &&& now.held == before.held
                    &&& now.tracker == before.tracker || (now.tracker == before.tracker.remove(
                        self.pid->0,
                    ) && self.pid is Some)
                },
            },
        }
    }
}

/// One step of a stop keeps the surroundings as the state says they are.
pub proof fn lemma_stop_step(
    before: World,
    state: StopView,
    world: World,
    event: Event,
    next: World,
)
    requires
        forall|pid: u32| !before.held.contains(pid),
        state.matches_world(before, world),
        world.answers(state.request(), event, next),
    ensures
        state.step(event).name == state.name,
        state.step(event).matches_world(before, next),
{
    let pid = state.pid->0;
    match state.phase {
        StopPhase::Take => {
            if event == Event::Taken(false) {
                assert(next.tracker =~= before.tracker);
                assert(next.held =~= before.held);
            }
        },
        StopPhase::Kill => {
            if event == Event::Done {
                assert(next.held =~= before.held);
            }
        },
        StopPhase::Settle => {
            assert(before.tracker =~= before.tracker.remove(pid));
        },
        StopPhase::Return => {
            if event == Event::Done {
                assert(next.held =~= before.held);
                assert(next.tracker =~= before.tracker);
            }
        },
        _ => {},
    }
}

/// A stop that has ended in success has set the record to stopped, under
/// the pid it had, and the process's handle is neither in the tracker nor
/// held; nothing else changed. A stop that has ended in failure left the
/// store as it was, and where the termination through the handle failed
/// the tracker holds the handle again.
pub proof fn lemma_stop_records_stopped(
    name: Seq<char>,
    world: World,
    trace: Seq<(Event, World)>,
)
    requires
        forall|pid: u32| !world.held.contains(pid),
        follows(stop_protocol(), StopView::initial(name), world, trace),
        state_after(stop_protocol(), StopView::initial(name), trace).phase
            == StopPhase::Done,
    ensures
        ({
            let end = state_after(stop_protocol(), StopView::initial(name), trace);
            let after = world_after(world, trace);
            &&& after.dirs == world.dirs
            &&& after.files == world.files
            &&& after.held == world.held
            &&& match end.failure {
                None => {
                    &&& world.records.contains_key(name)
                    &&& after.records.contains_key(name)
                    &&& after.records == world.records.insert(name, after.records[name])
                    &&& after.records[name].status == ProcessStatus::Stopped
                    &&& after.records[name].pid == world.records[name].pid
                    &&& world.records[name].pid matches Some(pid) && after.tracker
                        == world.tracker.remove(pid)
                },
                Some(_) => after.records == world.records,
            }
        }),
{
    let protocol = stop_protocol();
    let start = StopView::initial(name);
    let inv = |s: StopView, w: World| s.name == name && s.matches_world(world, w);
    assert forall|s: StopView, w: World, e: Event, n: World|
        inv(s, w) && #[trigger] w.answers((protocol.request)(s), e, n) implies inv(
        (protocol.step)(s, e),
        n,
    ) by {
        lemma_stop_step(world, s, w, e, n);
    }
    lemma_invariant_holds(protocol, inv, start, world, trace);
}

impl StopView {
    /// The most requests that the stop can still make.
    pub open spec fn steps_left(self) -> nat {
        match self.phase {
            StopPhase::Find => 6,
            StopPhase::Take => 5,
            StopPhase::Kill => 4,
            StopPhase::Signal => 3,
            StopPhase::Settle => 2,
            StopPhase::Return => 1,
            StopPhase::Persist => 1,
            StopPhase::Done => 0,
        }
    }

    /// Every answer to the pending request brings the stop closer to its
    /// end.
    pub proof fn lemma_progresses(self, world: World, event: Event, next: World)
        requires
            world.answers(self.request(), event, next),
        ensures
            self.step(event).steps_left() < self.steps_left(),
    {
    }
}

/// A stop ends: no course of a stop has more than six answered requests.
pub proof fn lemma_stop_ends(name: Seq<char>, world: World, trace: Seq<(Event, World)>)
    requires
        follows(stop_protocol(), StopView::initial(name), world, trace),
    ensures
        trace.len() <= 6,
{
    let protocol = stop_protocol();
    let measure = |s: StopView| s.steps_left();
    assert forall|s: StopView, w: World, e: Event, n: World| #[trigger]
        w.answers((protocol.request)(s), e, n) implies measure((protocol.step)(s, e)) < measure(
        s,
    ) by {
        s.lemma_progresses(w, e, n);
    }
    lemma_course_is_bounded(protocol, measure, StopView::initial(name), world, trace);
}

/// After a refused kill the handle is back in the tracker. A stop is in
/// the phase `Return` only after the termination through the handle was
/// refused; whatever the course `before` that led there, the course `more`
/// that ends the stop is the one request to put the handle back, it ends
/// in failure, and it leaves the tracker, the held handles and the store
/// as they were when the stop began.
pub proof fn lemma_refused_kill_returns_the_handle(
    name: Seq<char>,
    world: World,
    before: Seq<(Event, World)>,
    more: Seq<(Event, World)>,
)
    requires
        forall|pid: u32| !world.held.contains(pid),
        follows(stop_protocol(), StopView::initial(name), world, before),
        state_after(stop_protocol(), StopView::initial(name), before).phase == StopPhase::Return,
        follows(
            stop_protocol(),
            state_after(stop_protocol(), StopView::initial(name), before),
            world_after(world, before),
            more,
        ),
        more.len() > 0,
    ensures
        ({
            let refused = state_after(stop_protocol(), StopView::initial(name), before);
            let end = state_after(stop_protocol(), refused, more);
            let after = world_after(world_after(world, before), more);
            &&& more.len() == 1
            &&& end.phase == StopPhase::Done
            &&& end.failure is Some
            &&& after.tracker == world.tracker
            &&& after.held == world.held
            &&& after.records == world.records
        }),
{
    let protocol = stop_protocol();
    let start = StopView::initial(name);
    let inv = |s: StopView, w: World| s.name == name && s.matches_world(world, w);
    assert forall|s: StopView, w: World, e: Event, n: World|
        inv(s, w) && #[trigger] w.answers((protocol.request)(s), e, n) implies inv(
        (protocol.step)(s, e),
        n,
    ) by {
        lemma_stop_step(world, s, w, e, n);
    }
    lemma_invariant_holds(protocol, inv, start, world, before);
    let refused = state_after(protocol, start, before);
    let middle = world_after(world, before);
    assert(middle.answers((protocol.request)(refused), more[0].0, more[0].1));
    lemma_stop_step(world, refused, middle, more[0].0, more[0].1);
    let last = (protocol.step)(refused, more[0].0);
    let rest = more.drop_first();
    assert(follows(protocol, last, more[0].1, rest));
    if rest.len() > 0 {
        assert(more[0].1.answers((protocol.request)(last), rest[0].0, rest[0].1));
    }
    assert(state_after(protocol, last, rest) == last);
    assert(more[0].1.tracker =~= world.tracker);
    assert(more[0].1.held =~= world.held);
}

} // verus!
