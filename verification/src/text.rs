//! Small helpers on strings, whose view is their sequence of characters.

use vstd::prelude::*;
use vstd::string::StrSliceExecFns;

verus! {

/// Calls `String::push`, which appends the character to the end of the
/// string. This is not proved.
#[verifier::external_body]
pub(crate) fn push_char(text: &mut String, c: char)
    ensures
        final(text)@ == old(text)@.push(c),
{
    text.push(c)
}

/// The characters of a string, in order.
pub fn characters_of(text: &str) -> (characters: Vec<char>)
    ensures
        characters@ == text@,
{
    let mut characters: Vec<char> = Vec::new();
    for c in remaining: text.chars()
        invariant
            characters@ == remaining.seq().take(remaining.index()),
    {
        characters.push(c);
    }
    characters
}

/// Whether two strings hold the same characters. The second is meant to be
/// the short one: it is read once for each of its characters.
pub fn same_text(text: &str, word: &str) -> (same: bool)
    ensures
        same == (text@ == word@),
{
    let length = word.unicode_len();
    if text.unicode_len() != length {
        return false;
    }
    let mut index: usize = 0;
    while index < length
        invariant
            length == word@.len(),
            length == text@.len(),
            index <= length,
            text@.take(index as int) == word@.take(index as int),
        decreases length - index,
    {
        if text.get_char(index) != word.get_char(index) {
            return false;
        }
        index = index + 1;
    }
    proof {
        assert(text@.take(length as int) == text@);
        assert(word@.take(length as int) == word@);
    }
    true
}

} // verus!
