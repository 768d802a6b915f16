//! Specifications for the string functions of `std` that the crate calls.

use vstd::prelude::*;

verus! {

/// `str` equality: two string slices are equal when they hold the same
/// characters.
pub assume_specification[ <str as PartialEq>::eq ](a: &str, b: &str) -> (same: bool)
    ensures
        same == (a@ == b@),
;

/// What is left of `text` once `prefix` has been taken from its start as often
/// as it stands there.
pub open spec fn without_leading(text: Seq<char>, prefix: Seq<char>) -> Seq<char>
    decreases text.len(),
{
    if prefix.len() > 0 && prefix.is_prefix_of(text) {
        without_leading(text.skip(prefix.len() as int), prefix)
    } else {
        text
    }
}

/// `str::starts_with` with a string pattern: whether the pattern is a prefix
/// of the text.
#[verifier::external_body]
pub(crate) fn has_prefix(text: &str, prefix: &str) -> (yes: bool)
    ensures
        yes == prefix@.is_prefix_of(text@),
{
    text.starts_with(prefix)
}

/// `str::trim_start_matches` with a string pattern: the text with every
/// leading repetition of the pattern removed.
#[verifier::external_body]
pub(crate) fn trim_leading<'a>(text: &'a str, prefix: &str) -> (rest: &'a str)
    requires
        prefix@.len() > 0,
    ensures
        rest@ == without_leading(text@, prefix@),
{
    text.trim_start_matches(prefix)
}

/// The two texts, one after the other.
pub fn joined(first: &str, second: &str) -> (both: String)
    ensures
        both@ == first@ + second@,
{
    let mut both = first.to_owned();
    both.append(second);
    both
}

} // verus!
