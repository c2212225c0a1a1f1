//! Geometry of curves and surfaces, kept apart from how objects connect.

pub mod boundary;
pub mod path;
pub mod surfaces;
pub mod table;
