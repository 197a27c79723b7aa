//! Text matching for search: case folding and substring tests.

use vstd::prelude::*;

verus! {

/// The lower-case form of `text` as `str::to_lowercase` computes it.
pub uninterp spec fn lowercase_of(text: Seq<char>) -> Seq<char>;

/// `str::to_lowercase`: the lower-case equivalent of the text, by the
/// Unicode rules that the standard library follows. The result depends on
/// the text alone.
#[verifier::external_body]
pub(crate) fn to_lowercase(text: &String) -> (lowered: String)
    ensures
        lowered@ == lowercase_of(text@),
{
    text.to_lowercase()
}

/// Whether `needle` stands in `text` from index `at` on.
pub open spec fn occurs_at(needle: Seq<char>, text: Seq<char>, at: int) -> bool {
    &&& 0 <= at
    &&& at + needle.len() <= text.len()
    &&& text.subrange(at, at + needle.len()) == needle
}

/// Whether `needle` is a contiguous part of `text`. The empty text is part
/// of every text.
pub open spec fn occurs_in(needle: Seq<char>, text: Seq<char>) -> bool {
    exists|at: int| occurs_at(needle, text, at)
}

/// `str::contains` with a string as the pattern: whether the pattern
/// matches a sub-slice of the text.
#[verifier::external_body]
pub(crate) fn contains_text(text: &String, needle: &String) -> (found: bool)
    ensures
        found == occurs_in(needle@, text@),
{
    text.contains(needle.as_str())
}

} // verus!
