//! Errors of the plugin system.

use vstd::prelude::*;

verus! {

/// Errors of the plugin system.
#[derive(Debug)]
pub enum Error {
    /// A plugin operation was refused; the text says why.
    Plugin(String),
}

/// Result type of the plugin system.
pub type Result<T> = core::result::Result<T, Error>;

} // verus!
