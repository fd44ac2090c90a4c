//! File-system paths, held as strings and compared the way `std::path`
//! compares them.

use vstd::prelude::*;

verus! {

/// Whether `std::path::Path::starts_with` holds of `path` and `base`: `base`
/// is a whole-component prefix of `path`.
pub uninterp spec fn path_prefix(path: Seq<char>, base: Seq<char>) -> bool;

/// Whether `std::path::Path`'s `==` holds of `a` and `b`: they have the same
/// components.
pub uninterp spec fn path_same(a: Seq<char>, b: Seq<char>) -> bool;

/// Calls `std::path::Path::new(path).starts_with(base)`; what it returns is
/// named `path_prefix`.
#[verifier::external_body]
pub fn path_starts_with(path: &str, base: &str) -> (r: bool)
    ensures
        r == path_prefix(path@, base@),
{
    std::path::Path::new(path).starts_with(base)
}

/// Calls `==` on `std::path::Path::new(a)` and `std::path::Path::new(b)`;
/// what it returns is named `path_same`.
#[verifier::external_body]
pub fn path_eq(a: &str, b: &str) -> (r: bool)
    ensures
        r == path_same(a@, b@),
{
    std::path::Path::new(a) == std::path::Path::new(b)
}

/// Calls `std::path::Path::new(path).is_absolute()`. On Unix, as its
/// documentation says, a path is absolute exactly when it starts with the
/// root `/`.
#[verifier::external_body]
pub fn path_is_absolute(path: &str) -> (r: bool)
    ensures
        r == (path@.len() > 0 && path@[0] == '/'),
{
    std::path::Path::new(path).is_absolute()
}

/// The text that `{:?}` writes for the path `p`.
pub uninterp spec fn path_debug_text(p: Seq<char>) -> Seq<char>;

/// Calls `format!("{:?}", std::path::Path::new(path))`; what it writes is
/// named `path_debug_text`.
#[verifier::external_body]
pub fn path_debug(path: &str) -> (r: String)
    ensures
        r@ == path_debug_text(path@),
{
    format!("{:?}", std::path::Path::new(path))
}

} // verus!
