//! What user input means: the decisions of the input handling, apart from
//! the windows, clocks and cameras that they are made for.

pub mod actions;
pub mod mouse;
pub mod zoom;
