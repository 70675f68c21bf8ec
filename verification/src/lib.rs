//! Verified building blocks for unicycle forward kinematics with linearly
//! varying linear and angular velocity.
//!
//! The library holds the parts of the kinematics that exact reasoning can
//! reach: the generic control, rotation and rigid-motion types, the
//! interpolation search over sample times, the bisection of the time range into
//! windows, and the quarter-turn bookkeeping of the trigonometric error bounds.

pub mod builder;
pub mod curve;
pub mod error_analysis;
pub mod num;
pub mod primitives;

pub use self::num::Num;
