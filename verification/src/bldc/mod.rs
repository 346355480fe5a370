//! The six-step BLDC motor controller firmware logic.
pub mod six_step;
