//! Core of a boundary-representation modelling kernel over exact integer
//! (fixed-point) coordinates: interval algebra on curve boundaries, partial
//! curve approximations with a per-request cache, identity-keyed object
//! storage with a geometry side-table, and structural validation.

pub mod math;
pub mod geometry;
pub mod storage;
pub mod topology;
pub mod validation;
pub mod algorithms;
pub mod operations;
pub mod input;
