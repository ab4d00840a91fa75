//! Semantic core of a small statically typed language: type descriptors,
//! a runtime value algebra over a fixed-width numeric tower, a lexically
//! scoped stack of bindings, a typed AST with a type-inference pass that
//! inserts implicit casts, and a tree-walking evaluator.
pub mod position;
pub mod token;
pub mod typeobj;
pub mod errors;
pub mod varstack;
pub mod value;
pub mod element;
pub mod interpreter;
