//! A small indentation-sensitive scripting language: a lexer, a parser that
//! builds a syntax tree, and a tree-walking evaluator with lexical scopes.
//!
//! Every stage is specified by a mathematical model and proved against it.
pub mod ast;
pub mod common;
pub mod compiler;
pub mod lexer;
pub mod runtime;
