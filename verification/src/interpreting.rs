//! Running statements: values, the operations on them, and the machine.

pub mod builtins;
pub mod interpreter;
pub mod outcome;
pub mod semantics;
pub mod task;
pub mod typing;
