//! Errors of rollbacks.

use vstd::prelude::*;

verus! {

/// Errors of rollbacks.
#[derive(Debug)]
pub enum Error {
    /// A rollback could not be done; the text says why.
    Rollback(String),
    /// A configured limit was reached; the text says which.
    Config(String),
}

impl Error {
    /// The text the error carries.
    pub fn into_message(self) -> (r: String)
        ensures
            match self {
                Error::Rollback(m) => r == m,
                Error::Config(m) => r == m,
            },
    {
        match self {
            Error::Rollback(m) => m,
            Error::Config(m) => m,
        }
    }
}

/// Result type of rollbacks.
pub type Result<T> = core::result::Result<T, Error>;

} // verus!
