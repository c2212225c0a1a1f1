//! Algorithms that read the object graph and derive new data from it.

pub mod sorting;
pub mod sequences;
pub mod approx;
pub mod bounding_volume;
