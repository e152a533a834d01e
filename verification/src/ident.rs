//! Identifier comparison.
//!
//! Message and subscriber identifiers are process-lifetime string tokens.
//! Value equality of the character sequences is the correctness-defining
//! comparison; comparing interned tokens by identity is only ever an
//! optimization and is never relied on here.

use vstd::prelude::*;

verus! {

/// Relies on `str`'s `PartialEq`: two string slices compare equal exactly
/// when their character sequences are equal.
#[verifier::external_body]
pub(crate) fn str_eq(a: &str, b: &str) -> (r: bool)
    ensures
        r == (a@ == b@),
{
    a == b
}

} // verus!
