//! Gameplay simulation core of a 2D side-scrolling action game: an entity
//! store, spawn factories, and the ordered per-tick systems that move,
//! collide and retire entities.
//!
//! All quantities are integers. Positions and sizes are in micro-units
//! (`POS_SCALE` per world unit), velocities in milli-units per second
//! (`VEL_SCALE` per unit per second) and time in milliseconds, so that one
//! movement step `position + velocity * dt` is exact.

mod random;

pub mod geom;
pub mod component;
pub mod world;
pub mod resources;
pub mod system;
pub mod enemy;
pub mod hero;
pub mod collision;
pub mod healing;
pub mod fireball;
pub mod scene;
pub mod render;
pub mod hud;
