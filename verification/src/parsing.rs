//! Turning tokens into statements.

pub mod grammar;
pub mod parser;
pub mod typing;
