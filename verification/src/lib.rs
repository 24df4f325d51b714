//! Simulation core of a 2D scrolling arcade shooter.
//!
//! World coordinates, velocities and time are exact integers: positions in
//! world units (`i64`), time in integer ticks, zoom and visual scale in
//! milli-units (1000 = 1.0).  The fixed-step integrator keeps a per-axis
//! sub-unit carry so that integrating a constant velocity over whole
//! seconds is exact, with no drift.

pub mod bullet;
pub mod camera;
pub mod enemy;
pub mod explosion;
pub mod geom;
pub mod input;
pub mod physics;
mod rng;
pub mod spaceship;
pub mod stars;
pub mod timing;

pub use geom::Vec2i;
