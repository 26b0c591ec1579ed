//! Per-tick simulation core of a top-down arena combat game: movement,
//! collision detection and resolution against entities and a tile grid,
//! line-of-sight queries, and weapon and projectile combat.
//!
//! All geometry is fixed point: a length of `UNIT` is one world unit, time is
//! counted in microseconds and health in thousandths of a hit point.

pub mod geometry;
pub mod grid;
pub mod entity;
pub mod projectiles;
pub mod collision;
pub mod simulation_state;
pub mod side_effect;
pub mod melee_damage;
pub mod command;
pub mod ai;
pub mod screen_transform;
pub mod game;
mod chance;
