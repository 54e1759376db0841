//! A small dynamically typed scripting language: lexer, parser and evaluator.
//!
//! A source text is read into tokens ([`lexing`]), the tokens into statements
//! ([`parsing`]), and the statements are run by a machine ([`interpreting`])
//! that goes one step at a time. The machine does no input or output and
//! computes nothing on floats: where a program prints, reads, loads a file or
//! computes on a float, a step of the machine hands its host a request, and
//! the next step takes the host's reply. [`flush`] holds the way from a source
//! text to a machine, and the rules by which one file loads another.

pub mod error;
pub mod flush;
pub mod interpreting;
pub mod lexing;
pub mod parsing;
pub mod report;
pub mod table;
pub mod text;
