//! Helpers shared by the stages of the interpreter.
pub mod error;
pub mod text;
