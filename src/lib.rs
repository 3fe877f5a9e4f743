//! The execution core of a small, statically typed transformation language:
//! the value model, the kind lattice, the built-in function contract, and
//! the two execution paths (tree walking and direct calls with resolved
//! arguments).
pub mod value;
pub mod kind;
pub mod error;
pub mod stdlib;
mod clock;
pub mod function;
pub mod expression;
pub mod laws;
pub mod builtins;
pub mod console;
