//! Approximation of curves by finite sequences of points.

pub mod points;
pub mod sampling;
pub mod segment;
pub mod curve;
pub mod cycle;
pub mod algebra;
pub mod cache;
pub mod engine;
pub mod tolerance;
