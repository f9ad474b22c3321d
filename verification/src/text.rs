//! Small helpers over strings.

use vstd::prelude::*;

verus! {

/// Relies on `str`'s `==` (std `PartialEq`): two string slices are equal
/// exactly when their characters are.
#[verifier::external_body]
pub fn str_eq(a: &str, b: &str) -> (r: bool)
    ensures
        r == (a@ == b@),
{
    a == b
}

} // verus!
