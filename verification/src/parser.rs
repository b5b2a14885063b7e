//! The abstract syntax tree and the parser.
pub mod ast;
pub mod model;
pub mod numbers;
pub mod par;
