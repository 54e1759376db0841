//! Turning source text into line-tagged tokens.

pub mod lexer;
pub mod typing;
