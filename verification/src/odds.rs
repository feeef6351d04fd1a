//! How often each direction wins, counted over every draw of four scores.
//! Each draw within the bounds is as likely as any other, so a count of
//! draws is a measure of chance.

use crate::exploration::{best_of, weight};
use crate::grid::Direction;
use vstd::prelude::*;

verus! {

/// A property of a draw of four scores, for left, right, up and down.
pub type Outcome = spec_fn(int, int, int, int) -> bool;

/// One for a draw that has the property, zero for one that has not.
pub open spec fn one_if(p: Outcome, left: int, right: int, up: int, down: int) -> nat {
    if p(left, right, up, down) {
        1
    } else {
        0
    }
}

/// The number of draws with property `p` among those with the given scores
/// for left, right and up and a score for down below `downs`.
pub open spec fn count_down(p: Outcome, left: int, right: int, up: int, downs: nat) -> nat
    decreases downs,
{
    if downs == 0 {
        0
    } else {
        count_down(p, left, right, up, (downs - 1) as nat) + one_if(p, left, right, up, downs - 1)
    }
}

/// The same with the score for up below `ups` as well.
pub open spec fn count_up(p: Outcome, left: int, right: int, ups: nat, downs: nat) -> nat
    decreases ups,
{
    if ups == 0 {
        0
    } else {
        count_up(p, left, right, (ups - 1) as nat, downs) + count_down(
            p,
            left,
            right,
            ups - 1,
            downs,
        )
    }
}

/// The same with the score for right below `rights` as well.
pub open spec fn count_right(p: Outcome, left: int, rights: nat, ups: nat, downs: nat) -> nat
    decreases rights,
{
    if rights == 0 {
        0
    } else {
        count_right(p, left, (rights - 1) as nat, ups, downs) + count_up(
            p,
            left,
            rights - 1,
            ups,
            downs,
        )
    }
}

/// The number of draws with property `p` among all draws with each score
/// from zero up to, not including, its bound.
pub open spec fn count_draws(p: Outcome, lefts: nat, rights: nat, ups: nat, downs: nat) -> nat
    decreases lefts,
{
    if lefts == 0 {
        0
    } else {
        count_draws(p, (lefts - 1) as nat, rights, ups, downs) + count_right(
            p,
            lefts - 1,
            rights,
            ups,
            downs,
        )
    }
}

/// The draws that make `direction` the winner.
pub open spec fn winner_is(direction: Direction) -> Outcome {
    |left: int, right: int, up: int, down: int| best_of(left, right, up, down) == direction
}

/// The number of draws, among all that can be drawn after `previous`, that
/// make `direction` the winner.
pub open spec fn wins(previous: Option<Direction>, direction: Direction) -> nat {
    count_draws(
        winner_is(direction),
        weight(previous, Direction::Left) as nat,
        weight(previous, Direction::Right) as nat,
        weight(previous, Direction::Up) as nat,
        weight(previous, Direction::Down) as nat,
    )
}

/// A block of draws: each score within its own range, lower end included,
/// upper end not.
pub struct Block {
    pub left: (int, int),
    pub right: (int, int),
    pub up: (int, int),
    pub down: (int, int),
}

impl Block {
    pub open spec fn holds(self, left: int, right: int, up: int, down: int) -> bool {
        &&& self.left.0 <= left < self.left.1
        &&& self.right.0 <= right < self.right.1
        &&& self.up.0 <= up < self.up.1
        &&& self.down.0 <= down < self.down.1
    }

    /// The draws in the block.
    pub open spec fn outcome(self) -> Outcome {
        |left: int, right: int, up: int, down: int| self.holds(left, right, up, down)
    }

    /// Whether the block lies within the draws counted under the given bounds.
    pub open spec fn within(self, lefts: nat, rights: nat, ups: nat, downs: nat) -> bool {
        &&& 0 <= self.left.0 <= self.left.1 <= lefts
        &&& 0 <= self.right.0 <= self.right.1 <= rights
        &&& 0 <= self.up.0 <= self.up.1 <= ups
        &&& 0 <= self.down.0 <= self.down.1 <= downs
    }

    /// The number of draws in the block.
    pub open spec fn volume(self) -> int {
        (self.left.1 - self.left.0) * ((self.right.1 - self.right.0) * ((self.up.1 - self.up.0) * (
        self.down.1 - self.down.0)))
    }
}

/// How much of the range `range` lies below `n`.
pub open spec fn covered(range: (int, int), n: int) -> int {
    if n <= range.0 {
        0
    } else if n >= range.1 {
        range.1 - range.0
    } else {
        n - range.0
    }
}

/// Whether, on one draw, `a` and `b` together hold no more often than `c`
/// and `d` together.
pub open spec fn outweighed(
    a: Outcome,
    b: Outcome,
    c: Outcome,
    d: Outcome,
    left: int,
    right: int,
    up: int,
    down: int,
) -> bool {
    one_if(a, left, right, up, down) + one_if(b, left, right, up, down) <= one_if(
        c,
        left,
        right,
        up,
        down,
    ) + one_if(d, left, right, up, down)
}

proof fn lemma_outweighed_down(
    a: Outcome,
    b: Outcome,
    c: Outcome,
    d: Outcome,
    left: int,
    right: int,
    up: int,
    downs: nat,
)
    requires
        forall|down: int|
            0 <= down < downs ==> #[trigger] outweighed(a, b, c, d, left, right, up, down),
    ensures
        count_down(a, left, right, up, downs) + count_down(b, left, right, up, downs) <= count_down(
            c,
            left,
            right,
            up,
            downs,
        ) + count_down(d, left, right, up, downs),
    decreases downs,
{
    if downs > 0 {
        lemma_outweighed_down(a, b, c, d, left, right, up, (downs - 1) as nat);
        assert(outweighed(a, b, c, d, left, right, up, downs - 1));
    }
}

proof fn lemma_outweighed_up(
    a: Outcome,
    b: Outcome,
    c: Outcome,
    d: Outcome,
    left: int,
    right: int,
    ups: nat,
    downs: nat,
)
    requires
        forall|up: int, down: int|
            0 <= up < ups && 0 <= down < downs ==> #[trigger] outweighed(
                a,
                b,
                c,
                d,
                left,
                right,
                up,
                down,
            ),
    ensures
        count_up(a, left, right, ups, downs) + count_up(b, left, right, ups, downs) <= count_up(
            c,
            left,
            right,
            ups,
            downs,
        ) + count_up(d, left, right, ups, downs),
    decreases ups,
{
    if ups > 0 {
        lemma_outweighed_up(a, b, c, d, left, right, (ups - 1) as nat, downs);
        lemma_outweighed_down(a, b, c, d, left, right, ups - 1, downs);
    }
}

proof fn lemma_outweighed_right(
    a: Outcome,
    b: Outcome,
    c: Outcome,
    d: Outcome,
    left: int,
    rights: nat,
    ups: nat,
    downs: nat,
)
    requires
        forall|right: int, up: int, down: int|
            0 <= right < rights && 0 <= up < ups && 0 <= down < downs ==> #[trigger] outweighed(
                a,
                b,
                c,
                d,
                left,
                right,
                up,
                down,
            ),
    ensures
        count_right(a, left, rights, ups, downs) + count_right(b, left, rights, ups, downs)
            <= count_right(c, left, rights, ups, downs) + count_right(d, left, rights, ups, downs),
    decreases rights,
{
    if rights > 0 {
        lemma_outweighed_right(a, b, c, d, left, (rights - 1) as nat, ups, downs);
        lemma_outweighed_up(a, b, c, d, left, rights - 1, ups, downs);
    }
}

/// Where on every draw `a` and `b` together hold no more often than `c`
/// and `d` together, `a` and `b` together count no more draws than `c` and
/// `d` together.
pub proof fn lemma_outweighed(
    a: Outcome,
    b: Outcome,
    c: Outcome,
    d: Outcome,
    lefts: nat,
    rights: nat,
    ups: nat,
    downs: nat,
)
    requires
        forall|left: int, right: int, up: int, down: int|
            0 <= left < lefts && 0 <= right < rights && 0 <= up < ups && 0 <= down < downs
                ==> #[trigger] outweighed(a, b, c, d, left, right, up, down),
    ensures
        count_draws(a, lefts, rights, ups, downs) + count_draws(b, lefts, rights, ups, downs)
            <= count_draws(c, lefts, rights, ups, downs) + count_draws(d, lefts, rights, ups, downs),
    decreases lefts,
{
    if lefts > 0 {
        lemma_outweighed(a, b, c, d, (lefts - 1) as nat, rights, ups, downs);
        lemma_outweighed_right(a, b, c, d, lefts - 1, rights, ups, downs);
    }
}

proof fn lemma_block_down(block: Block, left: int, right: int, up: int, n: nat)
    requires
        0 <= block.down.0 <= block.down.1,
    ensures
        count_down(block.outcome(), left, right, up, n) == (if block.left.0 <= left < block.left.1
            && block.right.0 <= right < block.right.1 && block.up.0 <= up < block.up.1 {
            covered(block.down, n as int)
        } else {
            0
        }),
    decreases n,
{
    if n > 0 {
        lemma_block_down(block, left, right, up, (n - 1) as nat);
    }
}

proof fn lemma_block_up(block: Block, left: int, right: int, n: nat, downs: nat)
    requires
        0 <= block.down.0 <= block.down.1 <= downs,
        0 <= block.up.0 <= block.up.1,
    ensures
        count_up(block.outcome(), left, right, n, downs) == (if block.left.0 <= left < block.left.1
            && block.right.0 <= right < block.right.1 {
            covered(block.up, n as int) * (block.down.1 - block.down.0)
        } else {
            0
        }),
    decreases n,
{
    if n > 0 {
        lemma_block_up(block, left, right, (n - 1) as nat, downs);
        lemma_block_down(block, left, right, n - 1, downs);
        let width = block.down.1 - block.down.0;
        assert((covered(block.up, n - 1) + 1) * width == covered(block.up, n - 1) * width + width)
            by (nonlinear_arith);
    }
}

proof fn lemma_block_right(block: Block, left: int, n: nat, ups: nat, downs: nat)
    requires
        0 <= block.down.0 <= block.down.1 <= downs,
        0 <= block.up.0 <= block.up.1 <= ups,
        0 <= block.right.0 <= block.right.1,
    ensures
        count_right(block.outcome(), left, n, ups, downs) == (if block.left.0 <= left
            < block.left.1 {
            covered(block.right, n as int) * ((block.up.1 - block.up.0) * (block.down.1
                - block.down.0))
        } else {
            0
        }),
    decreases n,
{
    if n > 0 {
        lemma_block_right(block, left, (n - 1) as nat, ups, downs);
        lemma_block_up(block, left, n - 1, ups, downs);
        let width = (block.up.1 - block.up.0) * (block.down.1 - block.down.0);
        assert((covered(block.right, n - 1) + 1) * width == covered(block.right, n - 1) * width
            + width) by (nonlinear_arith);
    }
}

proof fn lemma_block_left(block: Block, n: nat, rights: nat, ups: nat, downs: nat)
    requires
        0 <= block.down.0 <= block.down.1 <= downs,
        0 <= block.up.0 <= block.up.1 <= ups,
        0 <= block.right.0 <= block.right.1 <= rights,
        0 <= block.left.0 <= block.left.1,
    ensures
        count_draws(block.outcome(), n, rights, ups, downs) == covered(block.left, n as int) * ((
        block.right.1 - block.right.0) * ((block.up.1 - block.up.0) * (block.down.1
            - block.down.0))),
    decreases n,
{
    if n > 0 {
        lemma_block_left(block, (n - 1) as nat, rights, ups, downs);
        lemma_block_right(block, n - 1, rights, ups, downs);
        let width = (block.right.1 - block.right.0) * ((block.up.1 - block.up.0) * (block.down.1
            - block.down.0));
        assert((covered(block.left, n - 1) + 1) * width == covered(block.left, n - 1) * width
            + width) by (nonlinear_arith);
    } else {
        let width = (block.right.1 - block.right.0) * ((block.up.1 - block.up.0) * (block.down.1
            - block.down.0));
        assert(0 * width == 0) by (nonlinear_arith);
    }
}

/// A block within the bounds counts as many draws as its volume.
pub proof fn lemma_block_count(block: Block, lefts: nat, rights: nat, ups: nat, downs: nat)
    requires
        block.within(lefts, rights, ups, downs),
    ensures
        count_draws(block.outcome(), lefts, rights, ups, downs) == block.volume(),
{
    lemma_block_left(block, lefts, rights, ups, downs);
}

/// The range of scores a block gives to `direction`: one range for the
/// direction `back`, one for the direction `other`, a third for the rest.
pub open spec fn range_for(
    direction: Direction,
    back: Direction,
    back_range: (int, int),
    other: Direction,
    other_range: (int, int),
    rest: (int, int),
) -> (int, int) {
    if direction == back {
        back_range
    } else if direction == other {
        other_range
    } else {
        rest
    }
}

/// The block that gives `back` and `other` a range each, and the two
/// remaining directions the range `rest`.
pub open spec fn block_of(
    back: Direction,
    back_range: (int, int),
    other: Direction,
    other_range: (int, int),
    rest: (int, int),
) -> Block {
    Block {
        left: range_for(Direction::Left, back, back_range, other, other_range, rest),
        right: range_for(Direction::Right, back, back_range, other, other_range, rest),
        up: range_for(Direction::Up, back, back_range, other, other_range, rest),
        down: range_for(Direction::Down, back, back_range, other, other_range, rest),
    }
}

/// The volume of such a block is the product of its four ranges' lengths.
pub proof fn lemma_block_of_volume(
    back: Direction,
    back_range: (int, int),
    other: Direction,
    other_range: (int, int),
    rest: (int, int),
)
    requires
        back != other,
    ensures
        block_of(back, back_range, other, other_range, rest).volume() == (back_range.1
            - back_range.0) * ((other_range.1 - other_range.0) * ((rest.1 - rest.0) * (rest.1
            - rest.0))),
{
    let b = back_range.1 - back_range.0;
    let o = other_range.1 - other_range.0;
    let r = rest.1 - rest.0;
    assert(b * (o * (r * r)) == o * (b * (r * r))) by (nonlinear_arith);
    assert(b * (o * (r * r)) == b * (r * (o * r))) by (nonlinear_arith);
    assert(b * (o * (r * r)) == b * (r * (r * o))) by (nonlinear_arith);
    assert(b * (o * (r * r)) == o * (r * (b * r))) by (nonlinear_arith);
    assert(b * (o * (r * r)) == o * (r * (r * b))) by (nonlinear_arith);
    assert(b * (o * (r * r)) == r * (b * (o * r))) by (nonlinear_arith);
    assert(b * (o * (r * r)) == r * (b * (r * o))) by (nonlinear_arith);
    assert(b * (o * (r * r)) == r * (o * (b * r))) by (nonlinear_arith);
    assert(b * (o * (r * r)) == r * (o * (r * b))) by (nonlinear_arith);
    assert(b * (o * (r * r)) == r * (r * (b * o))) by (nonlinear_arith);
    assert(b * (o * (r * r)) == r * (r * (o * b))) by (nonlinear_arith);
}

/// After a move, turning back wins on some draws, but on fewer than half
/// as many as any other direction does. Every draw being as likely as any
/// other, the way back is chosen less than half as often as any other
/// single direction, and still now and then.
pub proof fn lemma_turning_back_is_rare(previous: Direction, other: Direction)
    requires
        other != previous.opposite(),
    ensures
        0 < wins(Some(previous), previous.opposite()),
        2 * wins(Some(previous), previous.opposite()) < wins(Some(previous), other),
{
    let back = previous.opposite();
    let lefts = weight(Some(previous), Direction::Left) as nat;
    let rights = weight(Some(previous), Direction::Right) as nat;
    let ups = weight(Some(previous), Direction::Up) as nat;
    let downs = weight(Some(previous), Direction::Down) as nat;
    let nothing = block_of(back, (0, 0), other, (0, 0), (0, 0));
    let low = block_of(back, (0, 25), other, (0, 25), (0, 25));
    let high = block_of(back, (25, 50), other, (0, 50), (0, 50));
    let near = block_of(back, (0, 50), other, (50, 75), (0, 50));
    let far = block_of(back, (0, 50), other, (75, 100), (0, 75));
    let top = block_of(back, (49, 50), other, (0, 1), (0, 1));
    lemma_block_of_volume(back, (0, 0), other, (0, 0), (0, 0));
    lemma_block_of_volume(back, (0, 25), other, (0, 25), (0, 25));
    lemma_block_of_volume(back, (25, 50), other, (0, 50), (0, 50));
    lemma_block_of_volume(back, (0, 50), other, (50, 75), (0, 50));
    lemma_block_of_volume(back, (0, 50), other, (75, 100), (0, 75));
    lemma_block_of_volume(back, (49, 50), other, (0, 1), (0, 1));
    lemma_block_count(nothing, lefts, rights, ups, downs);
    lemma_block_count(low, lefts, rights, ups, downs);
    lemma_block_count(high, lefts, rights, ups, downs);
    lemma_block_count(near, lefts, rights, ups, downs);
    lemma_block_count(far, lefts, rights, ups, downs);
    lemma_block_count(top, lefts, rights, ups, downs);
    assert((0 - 0) * ((0 - 0) * ((0 - 0) * (0 - 0))) == 0int) by (nonlinear_arith);
    assert((25 - 0) * ((25 - 0) * ((25 - 0) * (25 - 0))) == 390625int) by (nonlinear_arith);
    assert((50 - 25) * ((50 - 0) * ((50 - 0) * (50 - 0))) == 3125000int) by (nonlinear_arith);
    assert((50 - 0) * ((75 - 50) * ((50 - 0) * (50 - 0))) == 3125000int) by (nonlinear_arith);
    assert((50 - 0) * ((100 - 75) * ((75 - 0) * (75 - 0))) == 7031250int) by (nonlinear_arith);
    assert((50 - 49) * ((1 - 0) * ((1 - 0) * (1 - 0))) == 1int) by (nonlinear_arith);
    assert(nothing.volume() == 0);
    assert(low.volume() == 390625);
    assert(high.volume() == 3125000);
    assert(near.volume() == 3125000);
    assert(far.volume() == 7031250);
    assert(top.volume() == 1);
    assert forall|left: int, right: int, up: int, down: int|
        0 <= left < lefts && 0 <= right < rights && 0 <= up < ups && 0 <= down
            < downs implies #[trigger] outweighed(
        winner_is(back),
        nothing.outcome(),
        low.outcome(),
        high.outcome(),
        left,
        right,
        up,
        down,
    ) by {}
    lemma_outweighed(
        winner_is(back),
        nothing.outcome(),
        low.outcome(),
        high.outcome(),
        lefts,
        rights,
        ups,
        downs,
    );
    assert forall|left: int, right: int, up: int, down: int|
        0 <= left < lefts && 0 <= right < rights && 0 <= up < ups && 0 <= down
            < downs implies #[trigger] outweighed(
        near.outcome(),
        far.outcome(),
        winner_is(other),
        nothing.outcome(),
        left,
        right,
        up,
        down,
    ) by {}
    lemma_outweighed(
        near.outcome(),
        far.outcome(),
        winner_is(other),
        nothing.outcome(),
        lefts,
        rights,
        ups,
        downs,
    );
    assert forall|left: int, right: int, up: int, down: int|
        0 <= left < lefts && 0 <= right < rights && 0 <= up < ups && 0 <= down
            < downs implies #[trigger] outweighed(
        top.outcome(),
        nothing.outcome(),
        winner_is(back),
        nothing.outcome(),
        left,
        right,
        up,
        down,
    ) by {}
    lemma_outweighed(
        top.outcome(),
        nothing.outcome(),
        winner_is(back),
        nothing.outcome(),
        lefts,
        rights,
        ups,
        downs,
    );
}

} // verus!
