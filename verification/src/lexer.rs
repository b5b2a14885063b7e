//! Tokens and the lexer.
pub mod token;
pub mod model;
pub mod lex;
