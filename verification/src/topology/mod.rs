//! The objects of a shape and how they connect: vertices, curves,
//! half-edges, cycles, faces and sketches.

pub mod edge;
pub mod cycle;
pub mod face;
pub mod objects;
pub mod sketch;
