//! One tick in two halves: from what was sensed to the action asked of the
//! world, and from the world's answer to the end of the tick.

use crate::decision::{lemma_after, mode_at, sensing_mode, Action, SensingMode};
use crate::exploration::may_follow;
use crate::grid::{Cell, Direction};
use crate::robot::TrashinatorRobot;
use crate::schedule::{lemma_observe_all, lemma_schedules, Schedule};
use crate::sensing::{beam_sightings, grid_sightings, Located, Sighting};
use crate::state::AiState;
use vstd::prelude::*;

verus! {

/// What the agent asks to sense at the start of a tick.
#[derive(Clone, Copy, Debug, PartialEq, Eq, Hash)]
pub enum SensingRequest {
    /// Everything around the agent.
    Full,
    /// A scan in the given direction.
    Beam(Direction),
}

/// What the world gave back.
#[derive(Debug, PartialEq, Eq)]
pub enum Sensed {
    /// A full view: rows of entries, each with its absolute coordinate.
    Full(Vec<Vec<Located>>),
    /// A scan in the given direction: rows of cells.
    Beam(Direction, Vec<Vec<Cell>>),
    /// The scan failed: nothing was sensed.
    Nothing,
}

/// The sightings in what was sensed from `position`.
pub open spec fn sightings_of(sensed: Sensed, position: (usize, usize)) -> Seq<Sighting> {
    match sensed {
        Sensed::Full(rows) => grid_sightings(rows@),
        Sensed::Beam(direction, rows) => beam_sightings(position, direction, rows@),
        Sensed::Nothing => Seq::empty(),
    }
}

impl Schedule {
    /// Whether a tick may lead from `self` to `later`: the sightings are
    /// taken in, a task is scheduled unless one is at hand, `action` is
    /// decided on, and its outcome is recorded.
    pub open spec fn ticks_to(
        self,
        later: Schedule,
        sightings: Seq<Sighting>,
        position: (usize, usize),
        carried: usize,
        action: Action,
        succeeded: bool,
    ) -> bool {
        exists|planned: Schedule| #[trigger]
            self.observe_all(sightings, carried).schedules(planned) && planned.decides(
                position,
                carried,
                action,
            ) && later == planned.after(action, succeeded)
    }
}

/// A tick keeps the state consistent and forgets nothing: seen
/// coordinates, known teleports and completions only grow.
pub proof fn lemma_tick(
    s: Schedule,
    later: Schedule,
    sightings: Seq<Sighting>,
    position: (usize, usize),
    carried: usize,
    action: Action,
    succeeded: bool,
)
    requires
        s.consistent(),
        s.ticks_to(later, sightings, position, carried, action, succeeded),
    ensures
        later.consistent(),
        later.follows(s),
{
    let planned = choose|planned: Schedule| #[trigger]
        s.observe_all(sightings, carried).schedules(planned) && planned.decides(
            position,
            carried,
            action,
        ) && later == planned.after(action, succeeded);
    lemma_observe_all(s, sightings, carried);
    lemma_schedules(s.observe_all(sightings, carried), planned);
    lemma_after(planned, action, succeeded);
}

/// Once the goal is reached, it is reached at the end of every later tick,
/// whatever is sensed, decided and answered.
pub proof fn lemma_termination_is_final(
    s: Schedule,
    later: Schedule,
    sightings: Seq<Sighting>,
    position: (usize, usize),
    carried: usize,
    action: Action,
    succeeded: bool,
)
    requires
        s.consistent(),
        s.goal_reached(),
        s.ticks_to(later, sightings, position, carried, action, succeeded),
    ensures
        later.consistent(),
        later.goal_reached(),
{
    lemma_tick(s, later, sightings, position, carried, action, succeeded);
}

impl TrashinatorRobot {
    /// Decides how to sense in this tick from the energy left, drawing the
    /// direction of a scan where one is called for.
    pub fn request_sensing(&mut self, energy: usize) -> (request: SensingRequest)
        requires
            old(self).wf(),
        ensures
            final(self).wf(),
            match request {
                SensingRequest::Full => mode_at(energy) == SensingMode::Full && final(self)@
                    == old(self)@,
                SensingRequest::Beam(direction) => mode_at(energy) == SensingMode::Directional
                    && may_follow(old(self)@.last_scan, direction) && final(self)@ == (Schedule {
                    last_scan: Some(direction),
                    ..old(self)@
                }),
            },
    {
        match sensing_mode(energy) {
            SensingMode::Full => SensingRequest::Full,
            SensingMode::Directional => SensingRequest::Beam(self.choose_scan_direction()),
        }
    }

    /// The first half of a tick: takes in what was sensed, schedules a
    /// task unless one is at hand, and decides the action to ask of the
    /// world.
    pub fn process_tick<E>(
        &mut self,
        state: &mut AiState<E>,
        sensed: &Sensed,
        position: (usize, usize),
        carried_garbage: usize,
    ) -> (action: Action)
        requires
            old(self).wf(),
        ensures
            final(self).wf(),
            old(self)@.observe_all(sightings_of(*sensed, position), carried_garbage).schedules(
                final(self)@,
            ),
            final(self)@.decides(position, carried_garbage, action),
            final(state).discovered_tiles@ == old(state).discovered_tiles@ + sightings_of(
                *sensed,
                position,
            ),
            final(state).events_of_tick@ == old(state).events_of_tick@,
            final(state).terminate == old(state).terminate,
    {
        match sensed {
            Sensed::Full(rows) => {
                self.discover_tiles_and_populate_pq(state, rows, carried_garbage);
            },
            Sensed::Beam(direction, rows) => {
                self.discover_tiles_one_direction_and_populate_pq(
                    state,
                    position,
                    *direction,
                    rows,
                    carried_garbage,
                );
            },
            Sensed::Nothing => {
                assert(state.discovered_tiles@ + Seq::<Sighting>::empty()
                    =~= state.discovered_tiles@);
            },
        }
        self.determine_current_task();
        self.next_action(position, carried_garbage)
    }

    /// The second half of a tick: records how the action went and raises
    /// the terminate flag once the goal is reached.
    pub fn complete_tick<E>(&mut self, state: &mut AiState<E>, action: &Action, succeeded: bool)
        requires
            old(self).wf(),
        ensures
            final(self).wf(),
            final(self)@ == old(self)@.after(*action, succeeded),
            final(state).terminate == (old(state).terminate || final(self)@.goal_reached()),
            final(state).events_of_tick@ == old(state).events_of_tick@,
            final(state).discovered_tiles@ == old(state).discovered_tiles@,
    {
        self.record_outcome(action, succeeded);
        self.conclude_tick(state);
    }
}

} // verus!
