//! Small drawing helpers for the character grid.

pub use crate::output::Horizontal;
