//! The operators and the built-in functions, on values.

pub mod cmp;
pub mod io;
pub mod math;
pub mod misc;
