//! The write gate: a shared-secret check that guards every mutating
//! operation.

use vstd::prelude::*;
use vstd::string::StringExecFns;

verus! {

/// Decides whether a caller-supplied credential matches the configured
/// shared secret. A mismatch, including the empty string, fails, and
/// deciding has no side effects.
pub fn authorize(secret: &str, supplied: &str) -> (r: bool)
    ensures
        r == (supplied@ == secret@),
{
    let s: String = String::from_str(supplied);
    let c: String = String::from_str(secret);
    s == c
}

} // verus!
