//! The record of one tick, read by whoever drives the agent.

use crate::grid::Cell;
use vstd::prelude::*;

verus! {

/// What one tick produced: the events the world reported, the cells that were
/// sensed with their coordinates, and whether the goal has been reached.
/// `E` is the world's event type; the agent only stores events.
pub struct AiState<E> {
    pub events_of_tick: Vec<E>,
    pub discovered_tiles: Vec<(Cell, (usize, usize))>,
    pub terminate: bool,
}

impl<E> AiState<E> {
    pub fn new() -> (state: AiState<E>)
        ensures
            state.events_of_tick@.len() == 0,
            state.discovered_tiles@.len() == 0,
            !state.terminate,
    {
        AiState { events_of_tick: Vec::new(), discovered_tiles: Vec::new(), terminate: false }
    }

    /// Empties the record before a tick begins.
    pub fn reset(&mut self)
        ensures
            final(self).events_of_tick@.len() == 0,
            final(self).discovered_tiles@.len() == 0,
            !final(self).terminate,
    {
        self.events_of_tick = Vec::new();
        self.discovered_tiles = Vec::new();
        self.terminate = false;
    }

    /// Appends an event reported by the world.
    pub fn handle_event(&mut self, event: E)
        ensures
            final(self).events_of_tick@ == old(self).events_of_tick@.push(event),
            final(self).discovered_tiles@ == old(self).discovered_tiles@,
            final(self).terminate == old(self).terminate,
    {
        self.events_of_tick.push(event);
    }
}

impl<E> Default for AiState<E> {
    fn default() -> (state: AiState<E>)
        ensures
            state.events_of_tick@.len() == 0,
            state.discovered_tiles@.len() == 0,
            !state.terminate,
    {
        AiState::new()
    }
}

} // verus!
