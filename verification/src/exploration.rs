//! Choosing a direction when nothing else guides the agent: four random
//! scores, the highest wins, and the way back scores from half the range.

use crate::grid::Direction;
use rand::Rng;
use vstd::prelude::*;

verus! {

/// The exclusive upper bound of the score drawn for `direction`: half the
/// usual hundred for the direction that reverses `previous`.
pub open spec fn weight(previous: Option<Direction>, direction: Direction) -> int {
    if previous == Some(direction.opposite()) {
        50
    } else {
        100
    }
}

pub fn direction_weight(previous: &Option<Direction>, direction: Direction) -> (w: u32)
    ensures
        w == weight(*previous, direction),
{
    match previous {
        Some(p) => {
            if p.same(&direction.reversed()) {
                50
            } else {
                100
            }
        },
        None => 100,
    }
}

/// The direction with the highest score; among equal scores the first of
/// left, right, up, down.
pub open spec fn best_of(left: int, right: int, up: int, down: int) -> Direction {
    if left >= right && left >= up && left >= down {
        Direction::Left
    } else if right >= up && right >= down {
        Direction::Right
    } else if up >= down {
        Direction::Up
    } else {
        Direction::Down
    }
}

/// The place of a direction in the order in which scores are compared.
pub open spec fn scan_rank(direction: Direction) -> int {
    match direction {
        Direction::Left => 0,
        Direction::Right => 1,
        Direction::Up => 2,
        Direction::Down => 3,
    }
}

/// The score of a direction among the four.
pub open spec fn score_of(direction: Direction, left: int, right: int, up: int, down: int) -> int {
    match direction {
        Direction::Left => left,
        Direction::Right => right,
        Direction::Up => up,
        Direction::Down => down,
    }
}

/// The chosen direction has a score no other exceeds, and every direction
/// compared before it has a strictly lower one.
pub proof fn lemma_best_is_first_maximum(left: int, right: int, up: int, down: int, other: Direction)
    ensures
        score_of(other, left, right, up, down) <= score_of(
            best_of(left, right, up, down),
            left,
            right,
            up,
            down,
        ),
        scan_rank(other) < scan_rank(best_of(left, right, up, down)) ==> score_of(
            other,
            left,
            right,
            up,
            down,
        ) < score_of(best_of(left, right, up, down), left, right, up, down),
{
}

/// Picks the winner among four scores.
pub fn select_direction(left: u32, right: u32, up: u32, down: u32) -> (d: Direction)
    ensures
        d == best_of(left as int, right as int, up as int, down as int),
{
    let mut best: u32 = left;
    let mut direction = Direction::Left;
    if right > best {
        best = right;
        direction = Direction::Right;
    }
    if up > best {
        best = up;
        direction = Direction::Up;
    }
    if down > best {
        direction = Direction::Down;
    }
    direction
}

/// Whether `direction` can come out after `previous`: some four scores,
/// each below its bound, make it the winner.
pub open spec fn may_follow(previous: Option<Direction>, direction: Direction) -> bool {
    exists|left: int, right: int, up: int, down: int|
        0 <= left < weight(previous, Direction::Left) && 0 <= right < weight(
            previous,
            Direction::Right,
        ) && 0 <= up < weight(previous, Direction::Up) && 0 <= down < weight(
            previous,
            Direction::Down,
        ) && #[trigger] best_of(left, right, up, down) == direction
}

/// `rand::Rng::gen_range` on `rand::thread_rng()` with the range
/// `0..bound`: some number from zero up to, not including, `bound`. The
/// range must not be empty.
#[verifier::external_body]
fn random_below(bound: u32) -> (score: u32)
    requires
        bound > 0,
    ensures
        score < bound,
{
    rand::thread_rng().gen_range(0..bound)
}

/// Draws a score for each direction and returns the winner. Whatever the
/// draws, the result is a direction that may follow `previous`.
pub fn calculate_random_direction_with_weighted_previous_direction(
    previous: &Option<Direction>,
) -> (d: Direction)
    ensures
        may_follow(*previous, d),
{
    let left = random_below(direction_weight(previous, Direction::Left));
    let right = random_below(direction_weight(previous, Direction::Right));
    let up = random_below(direction_weight(previous, Direction::Up));
    let down = random_below(direction_weight(previous, Direction::Down));
    let d = select_direction(left, right, up, down);
    assert(best_of(left as int, right as int, up as int, down as int) == d);
    d
}

/// Turning back is never ruled out: every direction may follow every
/// previous one, the reverse included.
pub proof fn lemma_every_direction_may_follow(previous: Option<Direction>, direction: Direction)
    ensures
        may_follow(previous, direction),
{
    match direction {
        Direction::Left => {
            assert(best_of(49, 0, 0, 0) == direction);
        },
        Direction::Right => {
            assert(best_of(0, 49, 0, 0) == direction);
        },
        Direction::Up => {
            assert(best_of(0, 0, 49, 0) == direction);
        },
        Direction::Down => {
            assert(best_of(0, 0, 0, 49) == direction);
        },
    }
}

/// The way back wins only against low scores: when the direction that
/// reverses `previous` is chosen, every score drawn was below fifty.
pub proof fn lemma_reverse_needs_low_scores(
    previous: Direction,
    left: int,
    right: int,
    up: int,
    down: int,
)
    requires
        0 <= left < weight(Some(previous), Direction::Left),
        0 <= right < weight(Some(previous), Direction::Right),
        0 <= up < weight(Some(previous), Direction::Up),
        0 <= down < weight(Some(previous), Direction::Down),
        best_of(left, right, up, down) == previous.opposite(),
    ensures
        left < 50 && right < 50 && up < 50 && down < 50,
{
}

} // verus!
