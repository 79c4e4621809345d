//! A timeline cache for a simulated world: it stores keyframes (the state of
//! every entity at one tick) and extends them forward on demand, one tick at a
//! time, by the movement rule of each entity's class.
//!
//! Positions and headings are kept on an integer grid.

pub mod roster;
pub mod rules;
pub mod timeline;
pub mod server;
pub mod laws;
