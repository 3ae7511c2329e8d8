//! Small general-purpose helpers.

pub mod general;
