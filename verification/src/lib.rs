//! Decision core of a grid-roaming cleaning agent: it turns sensed cells into
//! prioritised tasks, walks greedily towards the task at hand, uses known
//! teleports when idle and otherwise explores with a bias against turning back.
//!
//! The agent never touches the world. Whoever drives it senses, hands the
//! cells over, is told what to do, does it, and reports how it went:
//! [`robot::TrashinatorRobot`] holds the state between ticks, [`tick`] has a
//! tick in two halves, and [`schedule::Schedule`] is the state as the
//! contracts see it.

pub mod decision;
pub mod exploration;
pub mod grid;
pub mod navigation;
pub mod odds;
pub mod queue;
pub mod robot;
pub mod schedule;
pub mod sensing;
pub mod state;
pub mod task;
pub mod teleport;
pub mod tick;
