//! What the agent does in a tick, and what the outcome does to its state.

use crate::exploration::may_follow;
use crate::grid::Direction;
use crate::navigation::{heading, lemma_heading_by_distance, distance, point, Step};
use crate::schedule::Schedule;
use crate::task::TaskAction;
use crate::teleport::{lemma_shortcut_taken, shortcut};
use vstd::prelude::*;

verus! {

/// The one thing the agent asks of the world in a tick.
#[derive(Clone, Copy, Debug, PartialEq, Eq, Hash)]
pub enum Action {
    /// Relocate to the given teleport.
    Relocate((usize, usize)),
    /// Walk one cell.
    Move(Direction),
    /// Destroy what the neighbouring cell in the given direction holds.
    Destroy(Direction),
    /// Put the given amount of garbage into the neighbouring bin.
    Deposit(Direction, usize),
    /// Give the current task up: a deposit with nothing to deposit.
    Abandon,
    /// Do nothing: the current target is the cell the agent stands on.
    Idle,
}

/// How the agent senses in a tick.
#[derive(Clone, Copy, Debug, PartialEq, Eq, Structural, Hash)]
pub enum SensingMode {
    /// A scan in one direction.
    Directional,
    /// A view of everything around the agent.
    Full,
}

/// The energy above which an even energy level calls for a directional scan.
pub const SCAN_ENERGY: usize = 50;

/// A directional scan is taken at an even energy level above fifty, a full
/// view otherwise.
pub open spec fn mode_at(energy: usize) -> SensingMode {
    if energy > SCAN_ENERGY && energy % 2 == 0 {
        SensingMode::Directional
    } else {
        SensingMode::Full
    }
}

pub fn sensing_mode(energy: usize) -> (mode: SensingMode)
    ensures
        mode == mode_at(energy),
{
    if energy > SCAN_ENERGY && energy % 2 == 0 {
        SensingMode::Directional
    } else {
        SensingMode::Full
    }
}

impl Schedule {
    /// The action of a tick where no draw is needed. With a task at hand
    /// the heuristic decides: a move, the task's act on the neighbouring
    /// cell, or nothing on the target itself. Without one, a relocation if
    /// the teleports offer it. `None` is left for exploration.
    pub open spec fn settled(self, position: (usize, usize), carried: usize) -> Option<Action> {
        match self.current {
            None => match shortcut(self.active_teleports, position) {
                Some(target) => Some(Action::Relocate(target)),
                None => None,
            },
            Some(task) => Some(
                match heading(point(position), point(task.coordinates)) {
                    None => Action::Idle,
                    Some(Step::Move(d)) => Action::Move(d),
                    Some(Step::Act(d)) => match task.action {
                        TaskAction::PutGarbageInBin => if carried > 0 {
                            Action::Deposit(d, carried)
                        } else {
                            Action::Abandon
                        },
                        _ => Action::Destroy(d),
                    },
                },
            ),
        }
    }

    /// Whether `action` may be the decision of a tick: the settled action
    /// where there is one, else a move in a direction that may follow the
    /// last move.
    pub open spec fn decides(self, position: (usize, usize), carried: usize, action: Action) -> bool {
        match self.settled(position, carried) {
            Some(a) => action == a,
            None => action matches Action::Move(d) && may_follow(self.last_move, d),
        }
    }

    /// The state after `action` was tried. A move is remembered whether it
    /// succeeded or not. A destroy or a deposit that succeeded while a task
    /// was at hand counts as a completion and frees the current slot; one
    /// that failed changes nothing. Abandoning frees the slot.
    /// Relocating and idling change nothing.
    pub open spec fn after(self, action: Action, succeeded: bool) -> Schedule {
        match action {
            Action::Relocate(_) => self,
            Action::Idle => self,
            Action::Move(d) => Schedule { last_move: Some(d), ..self },
            Action::Abandon => Schedule { current: None, ..self },
            _ => if succeeded && self.current is Some {
                Schedule { completed: counted(self.completed), current: None, ..self }
            } else {
                self
            },
        }
    }
}

/// One more completion; the count stops at the largest number it can hold.
pub open spec fn counted(completed: nat) -> nat {
    if completed < usize::MAX {
        completed + 1
    } else {
        completed
    }
}

/// Standing on a known active teleport with another active teleport known
/// and no task at hand, the decision is a relocation to a known active
/// teleport other than the one stood on: never a move. With just the two
/// known, it is the other one.
pub proof fn lemma_teleport_precedence(
    s: Schedule,
    position: (usize, usize),
    other: (usize, usize),
    carried: usize,
    action: Action,
)
    requires
        s.current is None,
        s.active_teleports.contains(position),
        s.active_teleports.contains(other),
        other != position,
        s.decides(position, carried, action),
    ensures
        action matches Action::Relocate(target) && target != position
            && s.active_teleports.contains(target),
        s.active_teleports.len() == 2 && s.active_teleports.no_duplicates() ==> action
            == Action::Relocate(other),
{
    lemma_shortcut_taken(s.active_teleports, position, other);
}

/// With a task at hand the task decides, whatever the teleports offer: two
/// or more cells from the target a move, one cell from it the task's act or
/// its abandonment, on it nothing, and never a relocation.
pub proof fn lemma_task_decides(s: Schedule, position: (usize, usize), carried: usize, action: Action)
    requires
        s.current is Some,
        s.decides(position, carried, action),
    ensures
        !(action is Relocate),
        distance(point(position), point(s.current->Some_0.coordinates)) >= 2 <==> action is Move,
        distance(point(position), point(s.current->Some_0.coordinates)) == 1 <==> (action is Destroy
            || action is Deposit || action is Abandon),
        distance(point(position), point(s.current->Some_0.coordinates)) == 0 <==> action is Idle,
{
    lemma_heading_by_distance(point(position), point(s.current->Some_0.coordinates));
}

/// Whatever was tried and however it went, the state stays consistent,
/// nothing is forgotten, and the count of completions does not go down.
pub proof fn lemma_after(s: Schedule, action: Action, succeeded: bool)
    requires
        s.consistent(),
    ensures
        s.after(action, succeeded).consistent(),
        s.after(action, succeeded).follows(s),
        s.after(action, succeeded).pending == s.pending,
        s.after(action, succeeded).seen == s.seen,
{
}

/// A failed destroy, deposit or relocation leaves the whole state as it
/// was, so the next tick decides afresh on the same task.
pub proof fn lemma_failure_changes_nothing(s: Schedule, action: Action)
    requires
        action is Destroy || action is Deposit || action is Relocate,
    ensures
        s.after(action, false) == s,
{
}

/// Scheduling never displaces a current task, however urgent the tasks
/// that wait: with a task at hand it changes neither the task nor the queue.
pub proof fn lemma_no_preemption(s: Schedule, later: Schedule)
    requires
        s.current is Some,
        s.schedules(later),
    ensures
        later.current == s.current,
        later.pending == s.pending,
{
}

} // verus!
