//! Catch-the-falling-fruit: the simulation behind the game.
//!
//! Lengths are kept in thousandths of a pixel ("milli-units"), speeds in
//! milli-units per second and durations in microseconds, so that every step
//! of the simulation runs on integers.

pub mod geometry;
pub mod actors;
pub mod collisions;
pub mod controls;
pub mod physics;
pub mod spawner;
pub mod util;
pub mod world;
