//! The analytic primitives and the world-space shape wrapper.

pub mod cube;
pub mod cylinder;
pub mod plane;
pub mod shape;
pub mod sphere;
