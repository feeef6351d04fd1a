//! The greedy one-step heuristic that brings the agent next to its target.

use crate::grid::Direction;
use vstd::prelude::*;

verus! {

/// What the agent does next about its target: walk one cell, or act on the
/// neighbouring cell in the given direction.
#[derive(Clone, Copy, Debug, PartialEq, Eq, Structural, Hash)]
pub enum Step {
    Move(Direction),
    Act(Direction),
}

/// The target is the very cell the agent stands on: there is no direction to
/// walk or act in.
#[derive(Clone, Copy, Debug, PartialEq, Eq, Structural, Hash)]
pub struct NavigationUndetermined;

pub open spec fn abs(x: int) -> int {
    if x < 0 {
        -x
    } else {
        x
    }
}

/// Rows the agent stands below its target (positive: the target is above).
pub open spec fn row_delta(agent: (int, int), target: (int, int)) -> int {
    agent.0 - target.0
}

/// Columns the target lies to the right of the agent.
pub open spec fn col_delta(agent: (int, int), target: (int, int)) -> int {
    target.1 - agent.1
}

pub open spec fn toward_row(agent: (int, int), target: (int, int)) -> Direction {
    if row_delta(agent, target) > 0 {
        Direction::Up
    } else {
        Direction::Down
    }
}

pub open spec fn toward_col(agent: (int, int), target: (int, int)) -> Direction {
    if col_delta(agent, target) > 0 {
        Direction::Right
    } else {
        Direction::Left
    }
}

/// The heuristic. More than one row apart: close the rows. Else more than
/// one column apart: close the columns. Diagonal neighbours: step along the
/// column axis. Neighbours along one axis: act towards the target. On the
/// target itself: nothing is determined.
pub open spec fn heading(agent: (int, int), target: (int, int)) -> Option<Step> {
    let rows = abs(row_delta(agent, target));
    let cols = abs(col_delta(agent, target));
    if rows > 1 {
        Some(Step::Move(toward_row(agent, target)))
    } else if cols > 1 {
        Some(Step::Move(toward_col(agent, target)))
    } else if rows == 1 && cols == 1 {
        Some(Step::Move(toward_col(agent, target)))
    } else if rows == 1 {
        Some(Step::Act(toward_row(agent, target)))
    } else if cols == 1 {
        Some(Step::Act(toward_col(agent, target)))
    } else {
        None
    }
}

/// A coordinate as a pair of mathematical integers.
pub open spec fn point(c: (usize, usize)) -> (int, int) {
    (c.0 as int, c.1 as int)
}

/// Decides the next step from `agent` towards `target`.
pub fn determine_action_to_perform_task(agent: (usize, usize), target: (usize, usize)) -> (step:
    Result<Step, NavigationUndetermined>)
    ensures
        match heading(point(agent), point(target)) {
            Some(s) => step is Ok && step->Ok_0 == s,
            None => step is Err,
        },
{
    let rows: usize = if agent.0 >= target.0 {
        agent.0 - target.0
    } else {
        target.0 - agent.0
    };
    let cols: usize = if agent.1 >= target.1 {
        agent.1 - target.1
    } else {
        target.1 - agent.1
    };
    let vertical = if agent.0 > target.0 {
        Direction::Up
    } else {
        Direction::Down
    };
    let horizontal = if target.1 > agent.1 {
        Direction::Right
    } else {
        Direction::Left
    };
    if rows > 1 {
        Ok(Step::Move(vertical))
    } else if cols > 1 || (rows == 1 && cols == 1) {
        Ok(Step::Move(horizontal))
    } else if rows == 1 {
        Ok(Step::Act(vertical))
    } else if cols == 1 {
        Ok(Step::Act(horizontal))
    } else {
        Err(NavigationUndetermined)
    }
}

/// Where a successful step in `direction` leaves the agent.
pub open spec fn moved(agent: (int, int), direction: Direction) -> (int, int) {
    match direction {
        Direction::Up => (agent.0 - 1, agent.1),
        Direction::Down => (agent.0 + 1, agent.1),
        Direction::Left => (agent.0, agent.1 - 1),
        Direction::Right => (agent.0, agent.1 + 1),
    }
}

/// The Manhattan distance between two cells.
pub open spec fn distance(agent: (int, int), target: (int, int)) -> int {
    abs(row_delta(agent, target)) + abs(col_delta(agent, target))
}

/// Where the agent stands after `moves` decisions, each followed by a
/// successful step when it was a move. Once the decision is no move, the
/// agent stays.
pub open spec fn advance(agent: (int, int), target: (int, int), moves: nat) -> (int, int)
    decreases moves,
{
    if moves == 0 {
        agent
    } else {
        match heading(agent, target) {
            Some(Step::Move(d)) => advance(moved(agent, d), target, (moves - 1) as nat),
            _ => agent,
        }
    }
}

/// The decision depends on the distance alone as to its kind: nothing on the
/// target, an act next to it along one axis, a move anywhere else.
pub proof fn lemma_heading_by_distance(agent: (int, int), target: (int, int))
    ensures
        distance(agent, target) == 0 <==> heading(agent, target) is None,
        distance(agent, target) == 1 <==> heading(agent, target) matches Some(Step::Act(_)),
        distance(agent, target) >= 2 <==> heading(agent, target) matches Some(Step::Move(_)),
        distance(agent, target) == 0 <==> agent == target,
{
}

/// A move brings the agent exactly one cell closer, and never off a grid
/// that holds both the agent and the target.
pub proof fn lemma_move_closes_in(agent: (int, int), target: (int, int), d: Direction)
    requires
        heading(agent, target) == Some(Step::Move(d)),
    ensures
        distance(moved(agent, d), target) == distance(agent, target) - 1,
        agent.0 >= 0 && target.0 >= 0 ==> moved(agent, d).0 >= 0,
        agent.1 >= 0 && target.1 >= 0 ==> moved(agent, d).1 >= 0,
        moved(agent, d).0 <= agent.0 || moved(agent, d).0 <= target.0,
        moved(agent, d).1 <= agent.1 || moved(agent, d).1 <= target.1,
{
}

/// From a target at distance `D >= 1`, with every step succeeding, the
/// first `D - 1` decisions are moves, each one cell closer. After them the
/// agent is next to the target along one axis, the decision is an act, and
/// however many more decisions are taken the agent stays there and the
/// decision stays that act: never a move again.
pub proof fn lemma_navigation_converges(agent: (int, int), target: (int, int), k: nat)
    requires
        distance(agent, target) >= 1,
    ensures
        k < distance(agent, target) - 1 ==> heading(advance(agent, target, k), target) matches Some(
            Step::Move(_),
        ),
        k <= distance(agent, target) - 1 ==> distance(advance(agent, target, k), target)
            == distance(agent, target) - k,
        k >= distance(agent, target) - 1 ==> distance(advance(agent, target, k), target) == 1,
        k >= distance(agent, target) - 1 ==> heading(advance(agent, target, k), target) matches Some(
            Step::Act(_),
        ),
        k >= distance(agent, target) - 1 ==> advance(agent, target, k) == advance(
            agent,
            target,
            (distance(agent, target) - 1) as nat,
        ),
    decreases k,
{
    lemma_heading_by_distance(agent, target);
    let total = distance(agent, target);
    if total == 1 {
        assert(advance(agent, target, k) == agent);
        assert(advance(agent, target, 0) == agent);
    } else if k == 0 {
    } else {
        let d = heading(agent, target)->Some_0->Move_0;
        lemma_move_closes_in(agent, target, d);
        let next = moved(agent, d);
        lemma_navigation_converges(next, target, (k - 1) as nat);
        assert(advance(agent, target, k) == advance(next, target, (k - 1) as nat));
        assert(advance(agent, target, (total - 1) as nat) == advance(
            next,
            target,
            (total - 2) as nat,
        ));
    }
}

} // verus!
