//! What scanning a text means, stated on sequences of characters.
//!
//! A position is the number of characters read so far. The character under
//! the cursor is the last one read, so a scan of a whole text starts at
//! position one.

use crate::characters::{
    null_character, spec_is_letter, spec_is_whitespace, spec_is_word_character,
    spec_is_word_start, spec_needs_letter_after,
};
use crate::lex_luthor::LexLuthorErrorView;
use crate::source_code::{span_at, SourceSpan};
use crate::token::{word_token, TokenView};
use vstd::prelude::*;

verus! {

/// The character under the cursor after `position` reads: the last one read,
/// or the null character before the first read and past the end of the text.
pub open spec fn current_character(source: Seq<char>, position: nat) -> char {
    if 1 <= position <= source.len() {
        source[position - 1]
    } else {
        null_character()
    }
}

/// The character the next read would bring, if there is one.
pub open spec fn next_character(source: Seq<char>, position: nat) -> Option<char> {
    if position < source.len() {
        Some(source[position as int])
    } else {
        None
    }
}

/// Scanning goes on while the position is within the text, its length
/// included.
pub open spec fn has_more(source: Seq<char>, position: nat) -> bool {
    position <= source.len()
}

/// The first position from `position` on whose character is not whitespace.
pub open spec fn after_whitespace(source: Seq<char>, position: nat) -> nat
    decreases source.len() + 1 - position,
{
    if spec_is_whitespace(current_character(source, position)) {
        after_whitespace(source, position + 1)
    } else {
        position
    }
}

/// The first position from `position` on whose character cannot continue a
/// word.
pub open spec fn after_word(source: Seq<char>, position: nat) -> nat
    decreases source.len() + 1 - position,
{
    if spec_is_word_character(current_character(source, position)) {
        after_word(source, position + 1)
    } else {
        position
    }
}

/// The token that a character makes by itself, for the characters that make
/// one.
pub open spec fn single_character_token(c: char, span: SourceSpan) -> Option<TokenView> {
    if c == '{' {
        Some(TokenView::LeftBrace(span))
    } else if c == '}' {
        Some(TokenView::RightBrace(span))
    } else if c == '[' {
        Some(TokenView::LeftBracket(span))
    } else if c == ']' {
        Some(TokenView::RightBracket(span))
    } else if c == '(' {
        Some(TokenView::LeftParen(span))
    } else if c == ')' {
        Some(TokenView::RightParen(span))
    } else if c == ',' {
        Some(TokenView::Comma(span))
    } else if c == '+' {
        Some(TokenView::Plus(span))
    } else if c == '-' {
        Some(TokenView::Minus(span))
    } else if c == '*' {
        Some(TokenView::Star(span))
    } else if c == '/' {
        Some(TokenView::Slash(span))
    } else if c == '%' {
        Some(TokenView::Percent(span))
    } else if c == '=' {
        Some(TokenView::Equal(span))
    } else if c == '<' {
        Some(TokenView::LessThan(span))
    } else if c == '>' {
        Some(TokenView::GreaterThan(span))
    } else if c == '&' {
        Some(TokenView::Ampersand(span))
    } else if c == '|' {
        Some(TokenView::Pipe(span))
    } else if c == '!' {
        Some(TokenView::Not(span))
    } else {
        None
    }
}

/// The token that two characters make together, for the five pairs that make
/// one.
pub open spec fn two_character_token(first: char, second: char, span: SourceSpan) -> Option<
    TokenView,
> {
    if first == '*' && second == '*' {
        Some(TokenView::StarStar(span))
    } else if first == '%' && second == '%' {
        Some(TokenView::PercentPercent(span))
    } else if first == '<' && second == '=' {
        Some(TokenView::LessThanOrEqual(span))
    } else if first == '>' && second == '=' {
        Some(TokenView::GreaterThanOrEqual(span))
    } else if first == '!' && second == '=' {
        Some(TokenView::NotEqual(span))
    } else {
        None
    }
}

/// Whether a character makes a token by itself.
pub open spec fn is_symbol(c: char) -> bool {
    single_character_token(c, SourceSpan { line: 1, column: 1 }) is Some
}

/// Whether two characters make a token together.
pub open spec fn is_symbol_pair(first: char, second: char) -> bool {
    two_character_token(first, second, SourceSpan { line: 1, column: 1 }) is Some
}

/// Whether the character at `index` breaks the shape of a word: it is a digit
/// or an underscore, and what follows it in the word is not a letter.
pub open spec fn breaks_shape(text: Seq<char>, index: int) -> bool {
    &&& spec_needs_letter_after(text[index])
    &&& !(index + 1 < text.len() && spec_is_letter(text[index + 1]))
}

/// The first index from `index` on at which the shape is broken.
pub open spec fn first_break_from(text: Seq<char>, index: nat) -> Option<nat>
    decreases text.len() - index,
{
    if index >= text.len() {
        None
    } else if breaks_shape(text, index as int) {
        Some(index)
    } else {
        first_break_from(text, index + 1)
    }
}

/// Where a word first breaks the shape of an identifier. A word of one
/// character never does.
pub open spec fn first_break(text: Seq<char>) -> Option<nat> {
    if text.len() == 1 {
        None
    } else {
        first_break_from(text, 0)
    }
}

/// The message for a character that starts no token.
pub open spec fn unexpected_character_message(c: char) -> Seq<char> {
    "unexpected character "@.push(c)
}

/// The message for a word that breaks the shape of an identifier at the
/// character `c`.
pub open spec fn invalid_identifier_message(text: Seq<char>, c: char) -> Seq<char> {
    (text + " is not a valid identifier, "@).push(c) + " must be followed by a letter"@
}

/// One attempt at a token: its outcome, and the position it leaves the
/// scanner at.
pub struct Step {
    pub outcome: Result<TokenView, LexLuthorErrorView>,
    pub position: nat,
}

/// The word that starts under the cursor at `start`: the longest run of word
/// characters from there.
pub open spec fn word_text(source: Seq<char>, start: nat) -> Seq<char> {
    source.subrange(start - 1, after_word(source, start) - 1)
}

/// The attempt at a word that starts under the cursor at `start`.
///
/// The scanner reads to the first character past the word and reports that
/// position. A well-shaped word then has that character consumed as well; a
/// word that breaks the shape leaves the scanner where it stands.
pub open spec fn word_step(source: Seq<char>, start: nat) -> Step {
    let end = after_word(source, start);
    let text = word_text(source, start);
    let span = span_at(source, end);
    match first_break(text) {
        Some(index) => Step {
            outcome: Err(
                LexLuthorErrorView::InvalidIdentifier {
                    source_span: span,
                    message: invalid_identifier_message(text, text[index as int]),
                },
            ),
            position: end,
        },
        None => Step { outcome: Ok(word_token(text, span)), position: end + 1 },
    }
}

/// The attempt at the token that starts under the cursor at `start`, where no
/// whitespace is.
pub open spec fn token_step(source: Seq<char>, start: nat) -> Step {
    let c = current_character(source, start);
    if spec_is_word_start(c) {
        word_step(source, start)
    } else if is_symbol(c) {
        match next_character(source, start) {
            Some(second) if is_symbol_pair(c, second) => Step {
                outcome: Ok(two_character_token(c, second, span_at(source, start + 1))->0),
                position: start + 2,
            },
            _ => Step {
                outcome: Ok(single_character_token(c, span_at(source, start))->0),
                position: start + 1,
            },
        }
    } else {
        Step {
            outcome: Err(
                LexLuthorErrorView::UnexpectedCharacter {
                    source_span: span_at(source, start + 1),
                    message: unexpected_character_message(c),
                },
            ),
            position: start + 1,
        }
    }
}

/// One attempt at a token from `position`: whitespace is passed over first.
pub open spec fn step(source: Seq<char>, position: nat) -> Step {
    token_step(source, after_whitespace(source, position))
}

/// Whitespace is passed over up to the first other character, and no
/// further.
pub proof fn lemma_after_whitespace(source: Seq<char>, position: nat)
    ensures
        position <= after_whitespace(source, position),
        !spec_is_whitespace(current_character(source, after_whitespace(source, position))),
        position <= source.len() + 1 ==> after_whitespace(source, position) <= source.len() + 1,
        forall|between: nat|
            position <= between < after_whitespace(source, position) ==> spec_is_whitespace(
                #[trigger] current_character(source, between),
            ),
    decreases source.len() + 1 - position,
{
    if spec_is_whitespace(current_character(source, position)) {
        lemma_after_whitespace(source, position + 1);
    }
}

/// A word is read up to the first character that cannot continue it, and no
/// further.
pub proof fn lemma_after_word(source: Seq<char>, position: nat)
    ensures
        position <= after_word(source, position),
        !spec_is_word_character(current_character(source, after_word(source, position))),
        position <= source.len() + 1 ==> after_word(source, position) <= source.len() + 1,
        spec_is_word_character(current_character(source, position)) ==> position < after_word(
            source,
            position,
        ),
        forall|between: nat|
            position <= between < after_word(source, position) ==> spec_is_word_character(
                #[trigger] current_character(source, between),
            ),
    decreases source.len() + 1 - position,
{
    if spec_is_word_character(current_character(source, position)) {
        lemma_after_word(source, position + 1);
    }
}

/// Every attempt moves the scanner on, by at most two positions past the end
/// of the text.
pub proof fn lemma_step_advances(source: Seq<char>, position: nat)
    ensures
        position < step(source, position).position,
        position <= source.len() + 1 ==> step(source, position).position <= source.len() + 2,
{
    lemma_after_whitespace(source, position);
    lemma_after_word(source, after_whitespace(source, position));
}

/// All that a scan from `position` to the end of the text yields: the tokens
/// of the attempts that succeeded, the errors of those that failed, each in
/// source order, and the position at which the scan stops.
pub struct Scan {
    pub tokens: Seq<TokenView>,
    pub errors: Seq<LexLuthorErrorView>,
    pub position: nat,
}

/// The scan from `position`: one attempt after another while the position is
/// within the text. A failed attempt does not stop the scan.
pub open spec fn scan_from(source: Seq<char>, position: nat) -> Scan
    decreases source.len() + 2 - position,
    via scan_from_decreases
{
    if !has_more(source, position) {
        Scan { tokens: Seq::empty(), errors: Seq::empty(), position }
    } else {
        let attempt = step(source, position);
        let rest = scan_from(source, attempt.position);
        match attempt.outcome {
            Ok(token) => Scan { tokens: seq![token] + rest.tokens, ..rest },
            Err(error) => Scan { errors: seq![error] + rest.errors, ..rest },
        }
    }
}

#[via_fn]
proof fn scan_from_decreases(source: Seq<char>, position: nat) {
    lemma_step_advances(source, position);
}

/// What a scan from `position` returns: every error if there is one, else
/// every token and the end marker after them.
pub open spec fn lex_from(source: Seq<char>, position: nat) -> Result<
    Seq<TokenView>,
    Seq<LexLuthorErrorView>,
> {
    let scan = scan_from(source, position);
    if scan.errors.len() > 0 {
        Err(scan.errors)
    } else {
        Ok(scan.tokens.push(TokenView::Eof))
    }
}

/// What scanning a whole text returns. A fresh scanner has read the first
/// character, so it stands at position one.
pub open spec fn lex(source: Seq<char>) -> Result<Seq<TokenView>, Seq<LexLuthorErrorView>> {
    lex_from(source, 1)
}

} // verus!
