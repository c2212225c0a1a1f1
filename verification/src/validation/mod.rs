//! Validation of objects: rules that a well-formed object keeps, and the
//! errors that say which of them it breaks.
//!
//! Validation only observes. It reports every violation that it finds and
//! corrects none.

pub mod cycle;
pub mod error;
pub mod face;
pub mod positions;
