//! The math kernel: 3-vectors, 3-points, 4x4 matrices and the geometric
//! transforms, all over fixed-point scalars.

pub mod matrix;
pub mod point;
pub mod transformations;
pub mod vector;
