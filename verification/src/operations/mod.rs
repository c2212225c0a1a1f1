//! Operations that make new objects from given ones.
//!
//! Objects do not change once they are made. An update gives a new object
//! and leaves the old one as it was.

pub mod builder;
pub mod update;
