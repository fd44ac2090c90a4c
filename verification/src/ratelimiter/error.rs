//! Errors of the rate limiting module.

use vstd::prelude::*;

verus! {

/// Errors of the rate limiting module.
#[derive(Debug)]
pub enum Error {
    /// A configuration value was rejected; the text says which.
    Config(String),
}

/// Result type of the rate limiting module.
pub type Result<T> = core::result::Result<T, Error>;

} // verus!
