//! Character classes of the language.

use vstd::prelude::*;

verus! {

/// The character the scanner holds when there is nothing to read.
pub open spec fn null_character() -> char {
    '\0'
}

/// Whitespace separates tokens and is never part of one.
pub open spec fn spec_is_whitespace(c: char) -> bool {
    c == ' ' || c == '\t' || c == '\n' || c == '\r'
}

#[verifier::when_used_as_spec(spec_is_whitespace)]
pub fn is_whitespace(c: char) -> (r: bool)
    ensures
        r == spec_is_whitespace(c),
{
    c == ' ' || c == '\t' || c == '\n' || c == '\r'
}

/// The ten decimal digits.
pub open spec fn spec_is_digit(c: char) -> bool {
    '0' <= c <= '9'
}

#[verifier::when_used_as_spec(spec_is_digit)]
pub fn is_digit(c: char) -> (r: bool)
    ensures
        r == spec_is_digit(c),
{
    '0' <= c && c <= '9'
}

/// What the standard library's `char::is_alphabetic` answers for a character:
/// whether it has the Unicode property `Alphabetic`.
pub uninterp spec fn unicode_alphabetic(c: char) -> bool;

/// Calls `char::is_alphabetic`. Nothing is claimed of the answer but that it
/// depends on the character alone; this is not proved.
#[verifier::external_body]
fn alphabetic(c: char) -> (r: bool)
    ensures
        r == unicode_alphabetic(c),
{
    c.is_alphabetic()
}

/// A letter: within ASCII the fifty-two Latin letters, beyond it whatever
/// Unicode calls alphabetic.
pub open spec fn spec_is_letter(c: char) -> bool {
    if c <= '\x7f' {
        'a' <= c <= 'z' || 'A' <= c <= 'Z'
    } else {
        unicode_alphabetic(c)
    }
}

#[verifier::when_used_as_spec(spec_is_letter)]
pub fn is_letter(c: char) -> (r: bool)
    ensures
        r == spec_is_letter(c),
{
    if c <= '\x7f' {
        ('a' <= c && c <= 'z') || ('A' <= c && c <= 'Z')
    } else {
        alphabetic(c)
    }
}

/// A word begins with a letter or an underscore.
pub open spec fn spec_is_word_start(c: char) -> bool {
    spec_is_letter(c) || c == '_'
}

#[verifier::when_used_as_spec(spec_is_word_start)]
pub fn is_word_start(c: char) -> (r: bool)
    ensures
        r == spec_is_word_start(c),
{
    is_letter(c) || c == '_'
}

/// A word goes on through letters, digits and underscores.
pub open spec fn spec_is_word_character(c: char) -> bool {
    spec_is_digit(c) || spec_is_letter(c) || c == '_'
}

#[verifier::when_used_as_spec(spec_is_word_character)]
pub fn is_word_character(c: char) -> (r: bool)
    ensures
        r == spec_is_word_character(c),
{
    is_digit(c) || is_letter(c) || c == '_'
}

/// Inside a word of two or more characters, a digit or an underscore must be
/// followed by a letter.
pub open spec fn spec_needs_letter_after(c: char) -> bool {
    spec_is_digit(c) || c == '_'
}

#[verifier::when_used_as_spec(spec_needs_letter_after)]
pub fn needs_letter_after(c: char) -> (r: bool)
    ensures
        r == spec_needs_letter_after(c),
{
    is_digit(c) || c == '_'
}

} // verus!
