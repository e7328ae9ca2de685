//! Fixed-point flocking simulation: agents steer by separation, alignment
//! and cohesion inside a toroidal world.

pub mod angle;
pub mod control;
pub mod flock;
pub mod geometry;
pub mod spawn;
pub mod steer;
pub mod store;
pub mod world;
