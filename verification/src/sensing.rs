//! Turning what the agent senses into sightings, and sightings into tasks.

use crate::grid::{Cell, Direction};
use crate::robot::TrashinatorRobot;
use crate::state::AiState;
use vstd::prelude::*;

verus! {

/// A sensed cell with its absolute coordinate.
pub type Sighting = (Cell, (usize, usize));

/// An entry of a full view: the cell, if known, with its absolute row and
/// column.
pub type Located = (Option<Cell>, usize, usize);

/// The known cells of one row of a full view, in order.
pub open spec fn row_sightings(row: Seq<Located>) -> Seq<Sighting>
    decreases row.len(),
{
    if row.len() == 0 {
        Seq::empty()
    } else {
        let rest = row_sightings(row.drop_last());
        match row.last().0 {
            Some(cell) => rest.push((cell, (row.last().1, row.last().2))),
            None => rest,
        }
    }
}

/// The known cells of a full view, row by row.
pub open spec fn grid_sightings(rows: Seq<Vec<Located>>) -> Seq<Sighting>
    decreases rows.len(),
{
    if rows.len() == 0 {
        Seq::empty()
    } else {
        grid_sightings(rows.drop_last()) + row_sightings(rows.last()@)
    }
}

/// The absolute coordinate of the cell at index `y` of row `x` of a
/// directional view taken from `position`. Rows lead away from the agent
/// when looking up or down, columns when looking left or right; the other
/// index starts one cell before the agent. `None` where the cell would lie
/// outside the coordinates a grid can have.
pub open spec fn beam_coordinate(
    position: (usize, usize),
    direction: Direction,
    x: int,
    y: int,
) -> Option<(usize, usize)> {
    let (row, col) = match direction {
        Direction::Up => (position.0 - x - 1, position.1 + y - 1),
        Direction::Down => (position.0 + x + 1, position.1 + y - 1),
        Direction::Left => (position.0 + x - 1, position.1 - y - 1),
        Direction::Right => (position.0 + x - 1, position.1 + y + 1),
    };
    if 0 <= row <= usize::MAX && 0 <= col <= usize::MAX {
        Some((row as usize, col as usize))
    } else {
        None
    }
}

/// The cells of row `x` of a directional view, each with its coordinate;
/// cells without a coordinate are left out.
pub open spec fn beam_row_sightings(
    position: (usize, usize),
    direction: Direction,
    x: int,
    row: Seq<Cell>,
) -> Seq<Sighting>
    decreases row.len(),
{
    if row.len() == 0 {
        Seq::empty()
    } else {
        let rest = beam_row_sightings(position, direction, x, row.drop_last());
        match beam_coordinate(position, direction, x, row.len() - 1) {
            Some(c) => rest.push((row.last(), c)),
            None => rest,
        }
    }
}

/// The cells of a directional view, row by row.
pub open spec fn beam_sightings(
    position: (usize, usize),
    direction: Direction,
    rows: Seq<Vec<Cell>>,
) -> Seq<Sighting>
    decreases rows.len(),
{
    if rows.len() == 0 {
        Seq::empty()
    } else {
        beam_sightings(position, direction, rows.drop_last()) + beam_row_sightings(
            position,
            direction,
            rows.len() - 1,
            rows.last()@,
        )
    }
}

/// `base + plus - minus`, if that is a coordinate.
fn offset_by(base: usize, plus: u128, minus: u128) -> (moved: Option<usize>)
    requires
        plus <= usize::MAX + 1,
        minus <= usize::MAX + 1,
    ensures
        moved == (if 0 <= base + plus - minus <= usize::MAX {
            Some((base + plus - minus) as usize)
        } else {
            None
        }),
{
    let total: u128 = base as u128 + plus;
    if total < minus {
        return None;
    }
    let value: u128 = total - minus;
    if value > usize::MAX as u128 {
        None
    } else {
        Some(value as usize)
    }
}

/// Computes `beam_coordinate` for the cell at index `y` of row `x`.
pub fn locate(position: (usize, usize), direction: Direction, x: usize, y: usize) -> (c: Option<
    (usize, usize),
>)
    ensures
        c == beam_coordinate(position, direction, x as int, y as int),
{
    let far_x: u128 = x as u128 + 1;
    let far_y: u128 = y as u128 + 1;
    let (row, col) = match direction {
        Direction::Up => (offset_by(position.0, 0, far_x), offset_by(position.1, y as u128, 1)),
        Direction::Down => (offset_by(position.0, far_x, 0), offset_by(position.1, y as u128, 1)),
        Direction::Left => (offset_by(position.0, x as u128, 1), offset_by(position.1, 0, far_y)),
        Direction::Right => (offset_by(position.0, x as u128, 1), offset_by(position.1, far_y, 0)),
    };
    match (row, col) {
        (Some(r), Some(c)) => Some((r, c)),
        _ => None,
    }
}

/// Lists the known cells of a full view.
pub fn present_cells(view: &Vec<Vec<Located>>) -> (cells: Vec<Sighting>)
    ensures
        cells@ == grid_sightings(view@),
{
    let mut cells: Vec<Sighting> = Vec::new();
    let mut i: usize = 0;
    while i < view.len()
        invariant
            i <= view.len(),
            cells@ == grid_sightings(view@.take(i as int)),
        decreases view.len() - i,
    {
        let row = &view[i];
        let ghost before = cells@;
        let mut j: usize = 0;
        while j < row.len()
            invariant
                j <= row.len(),
                cells@ == before + row_sightings(row@.take(j as int)),
            decreases row.len() - j,
        {
            let entry = row[j];
            if let Some(cell) = entry.0 {
                cells.push((cell, (entry.1, entry.2)));
            }
            proof {
                let upto = row@.take(j + 1);
                assert(upto.drop_last() =~= row@.take(j as int));
                assert(upto.last() == row@[j as int]);
                assert(cells@ =~= before + row_sightings(upto));
            }
            j += 1;
        }
        proof {
            assert(row@.take(row.len() as int) =~= row@);
            assert(view@.take(i + 1).drop_last() =~= view@.take(i as int));
            assert(view@.take(i + 1).last() == view@[i as int]);
        }
        i += 1;
    }
    proof {
        assert(view@.take(view.len() as int) =~= view@);
    }
    cells
}

/// Lists the cells of a directional view taken from `position`, each with
/// its absolute coordinate.
pub fn beam_cells(position: (usize, usize), direction: Direction, view: &Vec<Vec<Cell>>) -> (cells:
    Vec<Sighting>)
    ensures
        cells@ == beam_sightings(position, direction, view@),
{
    let mut cells: Vec<Sighting> = Vec::new();
    let mut x: usize = 0;
    while x < view.len()
        invariant
            x <= view.len(),
            cells@ == beam_sightings(position, direction, view@.take(x as int)),
        decreases view.len() - x,
    {
        let row = &view[x];
        let ghost before = cells@;
        let mut y: usize = 0;
        while y < row.len()
            invariant
                y <= row.len(),
                cells@ == before + beam_row_sightings(
                    position,
                    direction,
                    x as int,
                    row@.take(y as int),
                ),
            decreases row.len() - y,
        {
            if let Some(c) = locate(position, direction, x, y) {
                cells.push((row[y], c));
            }
            proof {
                let upto = row@.take(y + 1);
                assert(upto.drop_last() =~= row@.take(y as int));
                assert(upto.last() == row@[y as int]);
                assert(cells@ =~= before + beam_row_sightings(position, direction, x as int, upto));
            }
            y += 1;
        }
        proof {
            assert(row@.take(row.len() as int) =~= row@);
            assert(view@.take(x + 1).drop_last() =~= view@.take(x as int));
            assert(view@.take(x + 1).last() == view@[x as int]);
        }
        x += 1;
    }
    proof {
        assert(view@.take(view.len() as int) =~= view@);
    }
    cells
}

impl TrashinatorRobot {
    /// Takes in sightings one by one: each is logged as a discovery,
    /// whatever it holds, and then looked at for teleports and tasks.
    pub fn take_in<E>(
        &mut self,
        state: &mut AiState<E>,
        sightings: &Vec<Sighting>,
        carried_garbage: usize,
    )
        requires
            old(self).wf(),
        ensures
            final(self).wf(),
            final(self)@ == old(self)@.observe_all(sightings@, carried_garbage),
            final(state).discovered_tiles@ == old(state).discovered_tiles@ + sightings@,
            final(state).events_of_tick@ == old(state).events_of_tick@,
            final(state).terminate == old(state).terminate,
    {
        let ghost start = self@;
        let ghost logged = state.discovered_tiles@;
        let ghost events = state.events_of_tick@;
        let ghost flag = state.terminate;
        let mut i: usize = 0;
        while i < sightings.len()
            invariant
                i <= sightings.len(),
                self.wf(),
                self@ == start.observe_all(sightings@.take(i as int), carried_garbage),
                state.discovered_tiles@ == logged + sightings@.take(i as int),
                state.events_of_tick@ == events,
                state.terminate == flag,
            decreases sightings.len() - i,
        {
            let sighting = sightings[i];
            state.discovered_tiles.push(sighting);
            self.populate_pq(&sighting.0, sighting.1, carried_garbage);
            proof {
                let upto = sightings@.take(i + 1);
                assert(upto.drop_last() =~= sightings@.take(i as int));
                assert(upto.last() == sightings@[i as int]);
                assert(state.discovered_tiles@ =~= logged + upto);
            }
            i += 1;
        }
        proof {
            assert(sightings@.take(sightings.len() as int) =~= sightings@);
        }
    }

    /// Takes in a full view around the agent: every known cell is logged
    /// and looked at for teleports and tasks.
    pub fn discover_tiles_and_populate_pq<E>(
        &mut self,
        state: &mut AiState<E>,
        view: &Vec<Vec<Located>>,
        carried_garbage: usize,
    )
        requires
            old(self).wf(),
        ensures
            final(self).wf(),
            final(self)@ == old(self)@.observe_all(grid_sightings(view@), carried_garbage),
            final(state).discovered_tiles@ == old(state).discovered_tiles@ + grid_sightings(view@),
            final(state).events_of_tick@ == old(state).events_of_tick@,
            final(state).terminate == old(state).terminate,
    {
        let cells = present_cells(view);
        self.take_in(state, &cells, carried_garbage);
    }

    /// Takes in a directional view taken from `position` towards
    /// `direction`: every cell that has a coordinate is logged and looked at
    /// for teleports and tasks.
    pub fn discover_tiles_one_direction_and_populate_pq<E>(
        &mut self,
        state: &mut AiState<E>,
        position: (usize, usize),
        direction: Direction,
        view: &Vec<Vec<Cell>>,
        carried_garbage: usize,
    )
        requires
            old(self).wf(),
        ensures
            final(self).wf(),
            final(self)@ == old(self)@.observe_all(
                beam_sightings(position, direction, view@),
                carried_garbage,
            ),
            final(state).discovered_tiles@ == old(state).discovered_tiles@ + beam_sightings(
                position,
                direction,
                view@,
            ),
            final(state).events_of_tick@ == old(state).events_of_tick@,
            final(state).terminate == old(state).terminate,
    {
        let cells = beam_cells(position, direction, view);
        self.take_in(state, &cells, carried_garbage);
    }
}

} // verus!
