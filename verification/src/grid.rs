//! The grid as the agent sees it: directions and cell contents.

use vstd::prelude::*;

verus! {

/// One of the four cardinal directions. `Up` lowers the row, `Right` raises
/// the column.
#[derive(Clone, Copy, Debug, PartialEq, Eq, Structural, Hash)]
pub enum Direction {
    Up,
    Right,
    Down,
    Left,
}

impl Direction {
    /// The direction that undoes a step in this one.
    pub open spec fn opposite(self) -> Direction {
        match self {
            Direction::Up => Direction::Down,
            Direction::Down => Direction::Up,
            Direction::Left => Direction::Right,
            Direction::Right => Direction::Left,
        }
    }

    pub fn reversed(&self) -> (d: Direction)
        ensures
            d == self.opposite(),
    {
        match self {
            Direction::Up => Direction::Down,
            Direction::Down => Direction::Up,
            Direction::Left => Direction::Right,
            Direction::Right => Direction::Left,
        }
    }

    pub fn same(&self, other: &Direction) -> (b: bool)
        ensures
            b == (*self == *other),
    {
        match (self, other) {
            (Direction::Up, Direction::Up) => true,
            (Direction::Right, Direction::Right) => true,
            (Direction::Down, Direction::Down) => true,
            (Direction::Left, Direction::Left) => true,
            _ => false,
        }
    }

    /// Turning back twice is no turn at all.
    pub proof fn lemma_opposite_twice(self)
        ensures
            self.opposite().opposite() == self,
            self.opposite() != self,
    {
    }
}

/// What a grid location holds, as far as the agent cares.
#[derive(Clone, Copy, Debug, PartialEq, Eq, Hash)]
pub enum Cell {
    Empty,
    /// Garbage lying on the cell, with its amount.
    Garbage(usize),
    Fire,
    /// A bin, with the amount it can still take.
    Bin(usize),
    /// A teleport; the flag says whether it is active.
    Teleport(bool),
    Other,
}

} // verus!
