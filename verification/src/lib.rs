//! A two-dimensional particle-in-cell fluid core.
//!
//! Particles carry velocity, a staggered (MAC) grid enforces
//! incompressibility through a single Jacobi-style corrective pass, and each
//! step rasterizes the particles into a per-cell occupancy grid.  All
//! quantities are fixed-point: one grid cell is `SCALE` position units.

pub mod grid;
pub mod laws;
pub mod model;
pub mod particle;
pub mod rng;
pub mod sim;
pub mod units;
pub mod vec2;
