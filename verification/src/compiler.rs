//! Compile-time helpers: string interpolation, runes, macros and imports.
pub mod transpile;
pub mod runes;
pub mod macros;
pub mod import;
