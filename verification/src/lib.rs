//! easyjs: the lexer, parser and compile-time helpers of the easyjs language,
//! a language that compiles to JavaScript.
pub mod text;
pub mod lexer;
pub mod errors;
pub mod typechecker;
pub mod stdlib;
pub mod utils;
pub mod compiler;
pub mod parser;
pub mod jsarg;
