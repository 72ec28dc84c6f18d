use vstd::prelude::*;

verus! {

/// The full Unicode lowercase form of a string, as std computes it.
pub uninterp spec fn lower_of(s: Seq<char>) -> Seq<char>;

/// Relies on `str::to_lowercase`: the lowercase form depends on the
/// characters alone, and the empty string stays empty.
#[verifier::external_body]
pub(crate) fn lowercase(s: &str) -> (r: String)
    ensures
        r@ == lower_of(s@),
        s@.len() == 0 ==> r@.len() == 0,
{
    s.to_lowercase()
}

/// Maps every character of `input` to its lowercase form (full Unicode
/// lowercasing, not only ASCII).
pub fn fold_case(input: &str) -> (r: String)
    ensures
        r@ == lower_of(input@),
{
    lowercase(input)
}

} // verus!
