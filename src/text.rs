use vstd::prelude::*;

verus! {

/// The decimal digits of `n`, as `u64::to_string` writes them.
pub uninterp spec fn decimal_text(n: u64) -> Seq<char>;

/// Relies on `u64::to_string` (its `Display`): the decimal digits of `n`.
#[verifier::external_body]
pub(crate) fn decimal(n: u64) -> (r: String)
    ensures
        r@ == decimal_text(n),
{
    n.to_string()
}

/// A string's text as `{:?}` writes it: quoted, with special characters escaped.
pub uninterp spec fn debug_text(s: Seq<char>) -> Seq<char>;

/// Relies on `format!("{:?}", s)` for a `String`: the quoted, escaped text.
#[verifier::external_body]
pub(crate) fn debug_string(s: &String) -> (r: String)
    ensures
        r@ == debug_text(s@),
{
    format!("{:?}", s)
}

} // verus!
