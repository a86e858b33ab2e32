//! A verified core for a 2D evolutionary steering simulation.
//!
//! Mobile agents ("vehicles") wander a bounded plane scattered with static
//! stimuli: beneficial food and harmful poison. Each vehicle carries a pair of
//! gene weights that scale its attraction to (or repulsion from) the nearest
//! stimulus of each class. Per tick, every vehicle perceives, steers, consumes
//! stimuli it touches, and integrates its motion under bounded acceleration
//! and speed.
//!
//! All quantities are fixed-point integers: one world unit is `SCALE`
//! sub-units. This keeps the arithmetic exact and lets every step of the
//! pipeline carry a precise contract.

use vstd::prelude::*;

pub mod config;
pub mod laws;
pub mod mapping;
pub mod stimulus;
pub mod vec2;
pub mod vehicle;
pub mod world;

verus! {

/// Sub-units per world unit of the fixed-point representation.
pub const SCALE: i64 = 1000;

/// Largest magnitude of a position coordinate; integration saturates here.
pub const POS_LIMIT: i64 = 1_000_000_000_000;

/// Largest size of a vehicle or stimulus.
pub const SIZE_LIMIT: i64 = 1_000_000_000;

/// Largest speed or steering-force limit of a vehicle.
pub const SPEED_LIMIT: i64 = 1_000_000_000;

/// Largest magnitude of a gene weight: five whole units.
pub const DNA_LIMIT: i64 = 5 * SCALE;

/// Largest magnitude an acceleration component may reach before a vehicle
/// must integrate (a machine limit of the fixed-point range, far above what
/// one perception pass can add).
pub const ACC_LIMIT: i64 = 100_000_000_000;

} // verus!
