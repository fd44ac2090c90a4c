//! Errors of the scheduler.

use vstd::prelude::*;

verus! {

/// Errors of the scheduler.
#[derive(Debug)]
pub enum Error {
    /// A scheduling request was refused; the text says why.
    Schedule(String),
}

/// Result type of the scheduler.
pub type Result<T> = core::result::Result<T, Error>;

} // verus!
