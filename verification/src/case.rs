//! Case conversions used to derive identifiers from column names and values.

use vstd::prelude::*;

verus! {

/// The upper camel case form of a string, as `heck` computes it.
pub uninterp spec fn upper_camel_case(s: Seq<char>) -> Seq<char>;

/// The snake case form of a string, as `heck` computes it.
pub uninterp spec fn snake_case(s: Seq<char>) -> Seq<char>;

/// Calls `heck::ToUpperCamelCase::to_upper_camel_case` on `s`. The result is a
/// function of the characters of `s` alone; the contract gives it a name and
/// claims nothing else about it.
#[verifier::external_body]
pub(crate) fn to_upper_camel_case(s: &str) -> (r: String)
    ensures
        r@ == upper_camel_case(s@),
{
    heck::ToUpperCamelCase::to_upper_camel_case(s)
}

/// Calls `heck::ToSnakeCase::to_snake_case` on `s`. The result is a function
/// of the characters of `s` alone; the contract gives it a name and claims
/// nothing else about it.
#[verifier::external_body]
pub(crate) fn to_snake_case(s: &str) -> (r: String)
    ensures
        r@ == snake_case(s@),
{
    heck::ToSnakeCase::to_snake_case(s)
}

} // verus!
