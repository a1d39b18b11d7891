//! Orientation control for a chain of rotational joints.
//!
//! Each joint carries a PID controller that drives the joint's local
//! orientation toward an operator-set target angle. All arithmetic is
//! fixed-point: a value scaled by [`fx::FX_ONE`] stands for a real number,
//! and every operation saturates at [`fx::FX_MAX`] instead of overflowing.

pub mod chain;
pub mod controller;
pub mod fx;
pub mod joint;
pub mod laws;
pub mod quat;
pub mod trig;
pub mod vec3;
