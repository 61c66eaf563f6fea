//! Grid exploration and mining simulation: procedural map bookkeeping,
//! bot movement and path planning, mineral assignment and the screen state.

pub mod bots;
pub mod map;
pub mod state;
