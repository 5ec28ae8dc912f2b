//! Integer fixed-point particle simulation on a character grid.
//!
//! Particles move under integer physics in subpixel units, bounce off the
//! borders of the grid, spend fuel when they thrust, and report collisions
//! when two or more of them land in one grid cell.

mod colors;
pub mod border;
pub mod collision;
pub mod console;
pub mod game_events;
pub mod particle;
pub mod scene;
pub mod spatial;
