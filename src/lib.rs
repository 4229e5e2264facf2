//! Physics, collision and entity-lifecycle core of a 2D arcade shooter,
//! in fixed-point integer arithmetic.
//!
//! Lengths are in milli-units (1000 per screen pixel), angles in
//! milliradians, durations in milliseconds. Trigonometry comes from a
//! `rotation::TrigTable` handed in by the caller.
//!
//! - `geometry`, `rotation`, `motion`: vectors, the rigid transform and the
//!   kinematic steps shared by every entity.
//! - `boxarea`, `boxshape`, `collision`: bounding areas, the broad phase
//!   (AABB) and the narrow phase (separating axes).
//! - `lifecycle`: the activity capability and the culling of inactive entities.
//! - `asteroid`, `bullet`, `ship`, `ufo`, `particle`, `explosion`, `lives`:
//!   the entities.
//! - `game`: the collision rules, the split cascade and the per-tick driver.
//! - `random`: the random draws.

pub mod asteroid;
pub mod boxarea;
pub mod boxshape;
pub mod bullet;
pub mod collision;
pub mod explosion;
pub mod game;
pub mod geometry;
pub mod lifecycle;
pub mod lives;
pub mod motion;
pub mod particle;
pub mod random;
pub mod rotation;
pub mod ship;
pub mod ufo;
