//! The content of a `.ejconfig` file.
use vstd::prelude::*;

verus! {

/// Corresponds to a .ejconfig file
#[derive(Debug, Clone)]
pub struct EJConfig {
    pub name: String,
    pub description: String,
    pub author: Author,
    /// Where is the source .ej file located?
    pub source: String,
    /// Which runtime should we use to run this?
    pub runtime: String,
    /// What is the output name.
    pub output: String,
    /// Is this a package installed globally?
    pub global: bool,
}

/// The Author details of a .ejconfig file.
#[derive(Debug, Clone)]
pub struct Author {
    pub name: String,
    pub email: String,
}

} // verus!
