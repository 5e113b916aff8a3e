//! Compile-time expansion of guard ("modifier") attributes on functions.
//!
//! A modifier literal names a guard function, optionally followed by `@` and a
//! comma-separated list of raw argument fragments.  Expansion turns each
//! parsed modifier into a guard-check statement and prepends those statements,
//! in declaration order, to the annotated function's body, while every part of
//! the function's signature is kept unchanged.

pub mod codegen;
pub mod expand;
pub mod parser;

pub use crate::expand::modifiers;
