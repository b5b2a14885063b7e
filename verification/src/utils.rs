//! Helpers on paths, names and hashes, and the project configuration.
pub mod sanitize;
pub mod hash;
pub mod config;
