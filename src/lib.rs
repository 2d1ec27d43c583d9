//! Intensity engine for remotely driven actuators.
//!
//! Levels are fixed-point: `FULL_SCALE` units are full output. Time is in
//! milliseconds.

pub mod auth;
pub mod decay;
pub mod frame;
pub mod pattern;
pub mod presence;
pub mod settings;
pub mod subject;
