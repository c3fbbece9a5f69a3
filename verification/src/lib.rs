//! A small real-time game runtime: actors composed from components, updated
//! once per frame by a world that owns them.
//!
//! Every quantity of the simulation (time, position, angle, speed) is a
//! decimal fixed-point number, so that a frame is computed exactly and the
//! same way on every machine.
pub mod actor;
