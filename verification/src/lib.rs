//! Depth-first traversal of a JavaScript syntax tree that reports every node
//! to a caller-supplied set of enter and exit hooks.
pub mod ast;
pub mod census;
pub mod counts;
pub mod nesting;
pub mod trace;
pub mod walk;
