//! Small containers.

pub mod loop_vec;
