//! Verified core of a small arcade game: a ship destroys fragmenting
//! asteroids on a toroidal screen while a combo/multiplier system scores
//! the hits.
//!
//! All simulation state is held in fixed-point integers: positions and
//! velocities in milli-pixels, angles in milli-degrees, times in
//! milliseconds. The host (rendering, audio, key polling) converts at the
//! boundary.

pub mod components;
pub mod engine;
pub mod input;
pub mod spawner;
pub mod utils;
