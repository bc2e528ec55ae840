//! What is taken on trust about the strings of the standard library. Nothing
//! in this file is proved.

use vstd::prelude::*;

verus! {

/// `String::push`: appends one character.
pub assume_specification[ String::push ](text: &mut String, c: char)
    ensures
        final(text)@ == old(text)@.push(c),
;

/// `String::pop`: removes the last character and returns it, or returns
/// nothing where the string is empty.
pub assume_specification[ String::pop ](text: &mut String) -> (popped: Option<char>)
    ensures
        match popped {
            Some(c) => old(text)@.len() > 0 && c == old(text)@.last() && final(text)@ == old(
                text,
            )@.drop_last(),
            None => old(text)@.len() == 0 && final(text)@ == old(text)@,
        },
;

/// The lower-case form that `str::to_lowercase` gives a text.
pub uninterp spec fn lowercase_of(text: Seq<char>) -> Seq<char>;

/// `str::to_lowercase`: the Unicode lower-case mapping, which is a matter of
/// tables; the result is only named.
pub assume_specification[ str::to_lowercase ](text: &str) -> (lower: String)
    ensures
        lower@ == lowercase_of(text@),
;

/// Whether `pattern` occurs in `text` as a run of adjacent characters.
pub open spec fn has_substring(text: Seq<char>, pattern: Seq<char>) -> bool {
    exists|start: int|
        0 <= start && start + pattern.len() <= text.len() && #[trigger] text.subrange(
            start,
            start + pattern.len(),
        ) == pattern
}

/// `str::contains` with a string as the pattern: whether the pattern matches
/// a sub-slice of the text.
#[verifier::external_body]
pub(crate) fn contains_str(text: &str, pattern: &str) -> (found: bool)
    ensures
        found == has_substring(text@, pattern@),
{
    text.contains(pattern)
}

} // verus!
