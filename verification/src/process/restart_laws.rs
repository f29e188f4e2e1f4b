//! That a restart ends.

use crate::database::Timestamp;
use crate::exchange::Event;
use crate::database::RecordView;
use crate::paths::joined_path;
use crate::process::delete_laws::touches_only;
use crate::process::restart::{RestartPhase, RestartView, restart_log_dir};
use crate::process::start::log_file_name;
use crate::process::stop::StopView;
use crate::world::{Protocol, World, follows, lemma_invariant_holds, state_after, world_after};
use vstd::prelude::*;

verus! {

/// The restart protocol as the model sees it; `clock` gives the instant at
/// which an event is handled.
pub open spec fn restart_protocol(clock: spec_fn(RestartView, Event) -> Timestamp) -> Protocol<
    RestartView,
> {
    Protocol {
        request: |s: RestartView| s.request(),
        step: |s: RestartView, e: Event| s.step(e, clock(s, e)),
    }
}

impl RestartView {
    /// The most requests that the restart can still make.
    pub open spec fn steps_left(self) -> nat {
        match self.phase {
            RestartPhase::Find => 25,
            RestartPhase::Probe => 24,
            RestartPhase::Stopping => 17 + self.stop.steps_left(),
            RestartPhase::Settle => 16,
            RestartPhase::Delete => 15,
            RestartPhase::Starting => 1 + self.start->0.steps_left(),
            RestartPhase::Done => 0,
        }
    }

    /// Every answer to the pending request brings the restart closer to its
    /// end, and leaves it well formed.
    pub proof fn lemma_progresses(self, world: World, event: Event, now: Timestamp, next: World)
        requires
            self.well_formed(),
            world.answers(self.request(), event, next),
        ensures
            self.step(event, now).well_formed(),
            self.step(event, now).steps_left() < self.steps_left(),
    {
        match self.phase {
            RestartPhase::Stopping => {
                self.stop.lemma_step_keeps_well_formed(event);
                self.stop.lemma_progresses(world, event, next);
            },
            RestartPhase::Starting => {
                self.start->0.lemma_step_keeps_well_formed(event, now);
                self.start->0.lemma_progresses(world, event, now, next);
            },
            _ => {},
        }
    }
}

/// The length of a course of a restart and the requests left at its end
/// do not exceed the requests left at its start.
pub proof fn lemma_restart_course(
    clock: spec_fn(RestartView, Event) -> Timestamp,
    state: RestartView,
    world: World,
    trace: Seq<(Event, World)>,
)
    requires
        state.well_formed(),
        follows(restart_protocol(clock), state, world, trace),
    ensures
        state_after(restart_protocol(clock), state, trace).well_formed(),
        trace.len() + state_after(restart_protocol(clock), state, trace).steps_left()
            <= state.steps_left(),
    decreases trace.len(),
{
    let protocol = restart_protocol(clock);
    if trace.len() > 0 {
        let event = trace[0].0;
        assert(world.answers((protocol.request)(state), event, trace[0].1));
        state.lemma_progresses(world, event, clock(state, event), trace[0].1);
        lemma_restart_course(
            clock,
            state.step(event, clock(state, event)),
            trace[0].1,
            trace.drop_first(),
        );
    }
}

/// A restart ends: no course of a restart has more than twenty-five
/// answered requests, the stop and the start included.
pub proof fn lemma_restart_ends(
    clock: spec_fn(RestartView, Event) -> Timestamp,
    restart: RestartView,
    world: World,
    trace: Seq<(Event, World)>,
)
    requires
        restart.phase == RestartPhase::Find,
        restart.well_formed(),
        follows(restart_protocol(clock), restart, world, trace),
    ensures
        trace.len() <= 25,
{
    lemma_restart_course(clock, restart, world, trace);
}

impl RestartView {
    /// What the store of the surroundings `now` looks like at this state of
    /// a restart that began in the surroundings `before`.
    pub open spec fn matches_world(self, before: World, now: World) -> bool {
        let found = before.records[self.name];
        let others = before.records.remove(self.name);
        &&& self.well_formed()
        &&& self.stop.name == self.name
        &&& touches_only(self.name, before, now)
        &&& match self.phase {
            RestartPhase::Find => now.records == before.records,
            RestartPhase::Probe | RestartPhase::Stopping | RestartPhase::Settle
            | RestartPhase::Delete => before.records.contains_key(self.name) && self.record
                == Some(found),
            RestartPhase::Starting => {
                &&& before.records.contains_key(self.name)
                &&& self.start->0.records_match(others, now.records)
                &&& self.restarts(found)
            },
            RestartPhase::Done => self.failure is None ==> {
                &&& before.records.contains_key(self.name)
                &&& self.start->0.records_match(others, now.records)
                &&& self.restarts(found)
            },
        }
    }

    /// The start at hand starts the process of `found` again: under the
    /// same name, with a new identifier, and with the command, the
    /// arguments, the variables and the working directory of `found`.
    pub open spec fn restarts(self, found: RecordView) -> bool {
        let record = self.start->0.record();
        &&& record.name == self.name
        &&& record.id == self.new_id
        &&& record.command == found.command
        &&& record.args == found.args
        &&& record.env_vars == found.env_vars
        &&& record.working_dir == found.working_dir
        &&& record.log_path == joined_path(
            restart_log_dir(found.log_path, self.default_log_dir),
            log_file_name(self.name),
        )
    }
}

/// A step of a stop touches no record but that of its process, and adds
/// none.
proof fn lemma_stop_touches_only(stop: StopView, world: World, event: Event, next: World)
    requires
        world.answers(stop.request(), event, next),
    ensures
        touches_only(stop.name, world, next),
{
}

/// What touches one record only, twice over, touches that record only.
proof fn lemma_touches_only_twice(name: Seq<char>, first: World, second: World, third: World)
    requires
        touches_only(name, first, second),
        touches_only(name, second, third),
    ensures
        touches_only(name, first, third),
{
    assert forall|n: Seq<char>| n != name implies (#[trigger] third.records.contains_key(n)
        == first.records.contains_key(n)) && (first.records.contains_key(n) ==> third.records[n]
        == first.records[n]) by {
        assert(second.records.contains_key(n) == first.records.contains_key(n));
        assert(third.records.contains_key(n) == second.records.contains_key(n));
        if first.records.contains_key(n) {
            assert(second.records[n] == first.records[n]);
            assert(third.records[n] == second.records[n]);
        }
    }
}

/// One step of a restart keeps the store as the state says it is.
proof fn lemma_restart_step(
    before: World,
    state: RestartView,
    world: World,
    event: Event,
    now: Timestamp,
    next: World,
)
    requires
        state.matches_world(before, world),
        world.answers(state.request(), event, next),
    ensures
        state.step(event, now).name == state.name,
        state.step(event, now).new_id == state.new_id,
        state.step(event, now).default_log_dir == state.default_log_dir,
        state.step(event, now).matches_world(before, next),
{
    state.lemma_progresses(world, event, now, next);
    let others = before.records.remove(state.name);
    let after = state.step(event, now);
    match state.phase {
        RestartPhase::Find => {
            assert(after.matches_world(before, next));
        },
        RestartPhase::Probe => {
            assert(after.matches_world(before, next));
        },
        RestartPhase::Stopping => {
            lemma_stop_touches_only(state.stop, world, event, next);
            lemma_touches_only_twice(state.name, before, world, next);
            assert(after.matches_world(before, next));
        },
        RestartPhase::Settle => {
            assert(after.matches_world(before, next));
        },
        RestartPhase::Delete => {
            if event is Deleted {
                assert(next.records =~= others);
            }
            assert(after.matches_world(before, next));
        },
        RestartPhase::Starting => {
            state.start->0.lemma_records_match(others, world, event, now, next);
            assert(touches_only(state.name, before, next)) by {
                assert forall|n: Seq<char>| n != state.name implies (
                #[trigger] next.records.contains_key(n) == before.records.contains_key(n)) && (
                before.records.contains_key(n) ==> next.records[n] == before.records[n]) by {
                    assert(others.contains_key(n) == before.records.contains_key(n));
                }
            }
            assert(after.matches_world(before, next));
        },
        RestartPhase::Done => {
            assert(after.matches_world(before, next));
        },
    }
}

/// A restart that has ended in success leaves one record under the name,
/// that of the process started again: under a new identifier, with the
/// command, the arguments, the variables and the working directory of the
/// record that was found, and its log in the directory that held the log
/// before. Whether it succeeded or not, every other record is as it was.
pub proof fn lemma_restart_replaces_the_record(
    clock: spec_fn(RestartView, Event) -> Timestamp,
    restart: RestartView,
    world: World,
    trace: Seq<(Event, World)>,
)
    requires
        restart == RestartView::initial(
            restart.name,
            restart.new_id,
            restart.default_log_dir,
            restart.rotation,
        ),
        follows(restart_protocol(clock), restart, world, trace),
    ensures
        ({
            let end = state_after(restart_protocol(clock), restart, trace);
            let after = world_after(world, trace);
            &&& touches_only(restart.name, world, after)
            &&& end.phase == RestartPhase::Done && end.failure is None ==> {
                &&& world.records.contains_key(restart.name)
                &&& after.records == world.records.insert(restart.name, end.start->0.record())
                &&& end.restarts(world.records[restart.name])
                &&& end.new_id == restart.new_id
            }
        }),
{
    let protocol = restart_protocol(clock);
    let inv = |s: RestartView, w: World|
        s.name == restart.name && s.new_id == restart.new_id && s.default_log_dir
            == restart.default_log_dir && s.matches_world(world, w);
    assert forall|s: RestartView, w: World, e: Event, n: World|
        inv(s, w) && #[trigger] w.answers((protocol.request)(s), e, n) implies inv(
        (protocol.step)(s, e),
        n,
    ) by {
        lemma_restart_step(world, s, w, e, clock(s, e), n);
    }
    lemma_invariant_holds(protocol, inv, restart, world, trace);
    let end = state_after(protocol, restart, trace);
    let after = world_after(world, trace);
    if end.phase == RestartPhase::Done && end.failure is None {
        assert(world.records.remove(restart.name).insert(restart.name, end.start->0.record())
            =~= world.records.insert(restart.name, end.start->0.record()));
    }
}

} // verus!
