//! A fixed-timestep collision engine for axis-aligned rectangles, with the
//! rules of a small top-down arcade shooter built on it.

pub mod broad_phase;
pub mod collider;
pub mod completeness;
pub mod enemy;
pub mod geometry;
pub mod integrator;
pub mod narrow_phase;
pub mod player;
pub mod response;
pub mod score;
pub mod simulation;
pub mod snapshot;
pub mod walls;
pub mod window;
