//! A discrete-time, grid-based cellular automaton engine.
//!
//! A [`Grid`] owns a linear array of cell occupants ([`Creature`]) and a
//! duplicate-free FIFO worklist of cell indices ([`TurnQueue`]). Each call to
//! [`Grid::step`] drains the entries that were pending when the call began:
//! for each popped index it builds an edge-clipped snapshot of the adjacent
//! occupants ([`Neighbors`]), asks the occupant to decide an ordered list of
//! [`Action`]s, and applies them in order, possibly re-activating cells for
//! the next step. A [`ColorEnumerator`] offers the visual state to a
//! rendering host without touching the simulation.

pub mod creature;
pub mod grid;
pub mod neighbors;
pub mod queue;

pub use creature::Action;
pub use creature::Color;
pub use creature::Creature;
pub use creature::CreatureType;
pub use creature::Position;
pub use creature::get;
pub use grid::ColorEnumerator;
pub use grid::Grid;
pub use grid::GridModel;
pub use neighbors::Neighbors;
pub use queue::TurnQueue;
