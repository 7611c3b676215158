//! What holds of every scan, proved from the definitions in `grammar`.

use crate::characters::{spec_is_whitespace, spec_is_word_character, spec_is_word_start};
use crate::grammar::{
    after_whitespace, after_word, breaks_shape, current_character, first_break, first_break_from,
    has_more, invalid_identifier_message, is_symbol, is_symbol_pair, lemma_step_advances, lex,
    lex_from, scan_from, single_character_token, step, token_step, two_character_token,
    unexpected_character_message, word_step, word_text, Step,
};
use crate::lex_luthor::{LexLuthor, LexLuthorErrorView};
use crate::source_code::{column_at, lemma_span_past_end, line_at, span_at, SourceSpan};
use crate::token::{is_keyword, keyword_token, word_token, TokenView};
use vstd::prelude::*;

verus! {

/// The empty text scans to the end marker alone.
pub proof fn empty_text_is_eof_alone()
    ensures
        lex(Seq::<char>::empty()) == Ok::<Seq<TokenView>, Seq<LexLuthorErrorView>>(
            seq![TokenView::Eof],
        ),
{
}

/// A text of one character that makes a token by itself scans to that token,
/// at line one, column one, and the end marker.
pub proof fn single_character_alone(c: char)
    requires
        is_symbol(c),
    ensures
        lex(seq![c]) == Ok::<Seq<TokenView>, Seq<LexLuthorErrorView>>(
            seq![
                single_character_token(c, SourceSpan { line: 1, column: 1 })->0,
                TokenView::Eof,
            ],
        ),
{
    let token = single_character_token(c, SourceSpan { line: 1, column: 1 })->0;
    reveal_with_fuel(line_at, 2);
    reveal_with_fuel(column_at, 2);
    assert((seq![token] + scan_from(seq![c], 2).tokens).push(TokenView::Eof) == seq![
        token,
        TokenView::Eof,
    ]);
}

/// Where a pair of characters that make a token together stands under the
/// cursor and next to it, the attempt yields the pair's token, with the
/// position of the second character: same line, one column past the first.
pub proof fn two_characters_span(source: Seq<char>, start: nat)
    requires
        1 <= start < source.len(),
        is_symbol_pair(source[start - 1], source[start as int]),
    ensures
        token_step(source, start) == (Step {
            outcome: Ok(
                two_character_token(
                    source[start - 1],
                    source[start as int],
                    span_at(source, start + 1),
                )->0,
            ),
            position: start + 2,
        }),
        line_at(source, start + 1) == line_at(source, start),
        column_at(source, start + 1) == column_at(source, start) + 1,
{
}

/// A text of two characters that make a token together scans to that token,
/// at line one, column two, and the end marker.
pub proof fn two_characters_alone(first: char, second: char)
    requires
        is_symbol_pair(first, second),
    ensures
        lex(seq![first, second]) == Ok::<Seq<TokenView>, Seq<LexLuthorErrorView>>(
            seq![
                two_character_token(first, second, SourceSpan { line: 1, column: 2 })->0,
                TokenView::Eof,
            ],
        ),
{
    let source = seq![first, second];
    let token = two_character_token(first, second, SourceSpan { line: 1, column: 2 })->0;
    reveal_with_fuel(line_at, 3);
    reveal_with_fuel(column_at, 3);
    two_characters_span(source, 1);
    assert((seq![token] + scan_from(source, 3).tokens).push(TokenView::Eof) == seq![
        token,
        TokenView::Eof,
    ]);
}

/// A character that starts no token is reported with the position the
/// scanner has after reading past it, and the scan goes on from there: the
/// error is followed by whatever the rest of the text gives rise to.
pub proof fn unexpected_character_is_reported(source: Seq<char>, position: nat)
    requires
        has_more(source, position),
        !spec_is_word_start(current_character(source, after_whitespace(source, position))),
        !is_symbol(current_character(source, after_whitespace(source, position))),
    ensures
        ({
            let start = after_whitespace(source, position);
            let error = LexLuthorErrorView::UnexpectedCharacter {
                source_span: span_at(source, start + 1),
                message: unexpected_character_message(current_character(source, start)),
            };
            &&& step(source, position) == Step { outcome: Err(error), position: start + 1 }
            &&& scan_from(source, position).errors == seq![error] + scan_from(
                source,
                start + 1,
            ).errors
            &&& scan_from(source, position).tokens == scan_from(source, start + 1).tokens
            &&& lex_from(source, position) == Err::<Seq<TokenView>, Seq<LexLuthorErrorView>>(
                seq![error] + scan_from(source, start + 1).errors,
            )
            &&& start >= source.len() ==> span_at(source, start + 1) == span_at(source, start)
        }),
{
    let start = after_whitespace(source, position);
    if start >= source.len() {
        lemma_span_past_end(source, start);
        lemma_span_past_end(source, start + 1);
    }
}

/// Where a word first breaks the shape, it does break it there and nowhere
/// before; where it never does, it is one character long or no digit and no
/// underscore in it lacks a letter after it.
pub proof fn first_break_is_first(text: Seq<char>)
    ensures
        match first_break(text) {
            Some(index) => {
                &&& text.len() != 1
                &&& index < text.len()
                &&& breaks_shape(text, index as int)
                &&& forall|before: int| 0 <= before < index ==> !breaks_shape(text, before)
            },
            None => text.len() == 1 || forall|index: int|
                0 <= index < text.len() ==> !breaks_shape(text, index),
        },
{
    if text.len() != 1 {
        first_break_from_is_first(text, 0);
    }
}

proof fn first_break_from_is_first(text: Seq<char>, from: nat)
    ensures
        match first_break_from(text, from) {
            Some(index) => {
                &&& from <= index < text.len()
                &&& breaks_shape(text, index as int)
                &&& forall|before: int| from <= before < index ==> !breaks_shape(text, before)
            },
            None => forall|index: int| from <= index < text.len() ==> !breaks_shape(text, index),
        },
    decreases text.len() - from,
{
    if from < text.len() && !breaks_shape(text, from as int) {
        first_break_from_is_first(text, from + 1);
    }
}

proof fn whitespace_run(source: Seq<char>, from: nat, to: nat)
    requires
        from <= to,
        forall|between: nat|
            from <= between < to ==> spec_is_whitespace(
                #[trigger] current_character(source, between),
            ),
        !spec_is_whitespace(current_character(source, to)),
    ensures
        after_whitespace(source, from) == to,
    decreases to - from,
{
    if from < to {
        whitespace_run(source, from + 1, to);
    }
}

proof fn word_run(source: Seq<char>, from: nat, to: nat)
    requires
        from <= to,
        forall|between: nat|
            from <= between < to ==> spec_is_word_character(
                #[trigger] current_character(source, between),
            ),
        !spec_is_word_character(current_character(source, to)),
    ensures
        after_word(source, from) == to,
    decreases to - from,
{
    if from < to {
        word_run(source, from + 1, to);
    }
}

/// The first attempt on a text made of whitespace, then a word, then
/// anything that cannot continue the word: it reads the word, and reports the
/// position just past it.
proof fn word_after_whitespace(leading: Seq<char>, word: Seq<char>, trailing: Seq<char>)
    requires
        forall|index: int| 0 <= index < leading.len() ==> spec_is_whitespace(leading[index]),
        word.len() >= 1,
        spec_is_word_start(word[0]),
        forall|index: int| 0 <= index < word.len() ==> spec_is_word_character(word[index]),
        trailing.len() >= 1 ==> !spec_is_word_character(trailing[0]),
    ensures
        step(leading + word + trailing, 1) == word_step(
            leading + word + trailing,
            leading.len() + 1,
        ),
        after_word(leading + word + trailing, leading.len() + 1) == leading.len() + word.len()
            + 1,
        word_text(leading + word + trailing, leading.len() + 1) == word,
{
    let source = leading + word + trailing;
    let start = leading.len() + 1;
    let end = leading.len() + word.len() + 1;
    assert forall|between: nat| 1 <= between < start implies spec_is_whitespace(
        #[trigger] current_character(source, between),
    ) by {}
    whitespace_run(source, 1, start);
    assert forall|between: nat| start <= between < end implies spec_is_word_character(
        #[trigger] current_character(source, between),
    ) by {}
    word_run(source, start, end);
}

/// A well-shaped word scans to its token, whatever whitespace stands before
/// it, and with nothing or one character that cannot continue it after it.
/// The token carries the position just past the word, which at the end of the
/// text is that of the word's last character.
pub proof fn well_shaped_word_lexes(leading: Seq<char>, word: Seq<char>, trailing: Seq<char>)
    requires
        forall|index: int| 0 <= index < leading.len() ==> spec_is_whitespace(leading[index]),
        word.len() >= 1,
        spec_is_word_start(word[0]),
        forall|index: int| 0 <= index < word.len() ==> spec_is_word_character(word[index]),
        first_break(word) is None,
        trailing.len() <= 1,
        trailing.len() == 1 ==> !spec_is_word_character(trailing[0]),
    ensures
        lex(leading + word + trailing) == Ok::<Seq<TokenView>, Seq<LexLuthorErrorView>>(
            seq![
                word_token(
                    word,
                    span_at(leading + word + trailing, leading.len() + word.len() + 1),
                ),
                TokenView::Eof,
            ],
        ),
        trailing.len() == 0 ==> span_at(
            leading + word + trailing,
            leading.len() + word.len() + 1,
        ) == span_at(leading + word + trailing, leading.len() + word.len()),
{
    let source = leading + word + trailing;
    let end = leading.len() + word.len() + 1;
    let token = word_token(word, span_at(source, end));
    word_after_whitespace(leading, word, trailing);
    assert((seq![token] + scan_from(source, end + 1).tokens).push(TokenView::Eof) == seq![
        token,
        TokenView::Eof,
    ]);
    if trailing.len() == 0 {
        lemma_span_past_end(source, end);
    }
}

/// A word that breaks the shape of an identifier, alone after any
/// whitespace, gives exactly one error: it names the whole word and the first
/// character that breaks the shape, at the position of the word's last
/// character.
pub proof fn misshapen_word_is_one_error(leading: Seq<char>, word: Seq<char>)
    requires
        forall|index: int| 0 <= index < leading.len() ==> spec_is_whitespace(leading[index]),
        word.len() >= 1,
        spec_is_word_start(word[0]),
        forall|index: int| 0 <= index < word.len() ==> spec_is_word_character(word[index]),
        first_break(word) is Some,
    ensures
        lex(leading + word) == Err::<Seq<TokenView>, Seq<LexLuthorErrorView>>(
            seq![
                LexLuthorErrorView::InvalidIdentifier {
                    source_span: span_at(leading + word, leading.len() + word.len()),
                    message: invalid_identifier_message(word, word[first_break(word)->0 as int]),
                },
            ],
        ),
{
    let source = leading + word;
    let end = leading.len() + word.len() + 1;
    word_after_whitespace(leading, word, Seq::<char>::empty());
    lemma_span_past_end(source, end);
    let error = LexLuthorErrorView::InvalidIdentifier {
        source_span: span_at(source, (end - 1) as nat),
        message: invalid_identifier_message(word, word[first_break(word)->0 as int]),
    };
    assert(seq![error] + scan_from(source, end).errors == seq![error]);
}

/// A reserved word is made of lower-case Latin letters, at least two of them.
pub proof fn keywords_are_lower_case(word: Seq<char>)
    requires
        is_keyword(word),
    ensures
        word.len() >= 2,
        forall|index: int| 0 <= index < word.len() ==> 'a' <= #[trigger] word[index] <= 'z',
{
    reveal_strlit("program");
    reveal_strlit("define");
    reveal_strlit("not");
    reveal_strlit("variable");
    reveal_strlit("is");
    reveal_strlit("natural");
    reveal_strlit("real");
    reveal_strlit("char");
    reveal_strlit("boolean");
    reveal_strlit("execute");
    reveal_strlit("set");
    reveal_strlit("get");
    reveal_strlit("to");
    reveal_strlit("put");
    reveal_strlit("loop");
    reveal_strlit("while");
    reveal_strlit("do");
    reveal_strlit("true");
    reveal_strlit("false");
}

/// A reserved word scans to its own token and never to an identifier,
/// whatever whitespace stands before it, and with nothing or one whitespace
/// character after it. The token carries the position just past the word.
pub proof fn keyword_lexes_to_its_token(leading: Seq<char>, word: Seq<char>, trailing: Seq<char>)
    requires
        forall|index: int| 0 <= index < leading.len() ==> spec_is_whitespace(leading[index]),
        is_keyword(word),
        trailing.len() <= 1,
        trailing.len() == 1 ==> spec_is_whitespace(trailing[0]),
    ensures
        lex(leading + word + trailing) == Ok::<Seq<TokenView>, Seq<LexLuthorErrorView>>(
            seq![
                keyword_token(
                    word,
                    span_at(leading + word + trailing, leading.len() + word.len() + 1),
                )->0,
                TokenView::Eof,
            ],
        ),
        !(keyword_token(
            word,
            span_at(leading + word + trailing, leading.len() + word.len() + 1),
        )->0 is Identifier),
{
    keywords_are_lower_case(word);
    assert forall|index: int| 0 <= index < word.len() implies !breaks_shape(word, index) by {}
    first_break_is_first(word);
    well_shaped_word_lexes(leading, word, trailing);
}

/// A token carries the position at which the scanner stood when it had read
/// the token's last character, or for a word the character after it: one
/// read before where the attempt leaves it. An error carries the position at
/// which the attempt leaves the scanner.
pub proof fn spans_follow_the_scanner(source: Seq<char>, position: nat)
    ensures
        match step(source, position).outcome {
            Ok(token) => token.span() == Some(
                span_at(source, (step(source, position).position - 1) as nat),
            ),
            Err(error) => error.source_span() == span_at(source, step(source, position).position),
        },
        position <= step(source, position).position - 1,
{
    lemma_step_advances(source, position);
}

/// No attempt yields the end marker.
pub proof fn no_attempt_yields_eof(source: Seq<char>, position: nat)
    ensures
        step(source, position).outcome != Ok::<TokenView, LexLuthorErrorView>(TokenView::Eof),
{
}

proof fn scan_holds_no_eof(source: Seq<char>, position: nat)
    ensures
        forall|index: int|
            0 <= index < scan_from(source, position).tokens.len() ==> scan_from(
                source,
                position,
            ).tokens[index] != TokenView::Eof,
    decreases source.len() + 2 - position,
{
    if has_more(source, position) {
        lemma_step_advances(source, position);
        no_attempt_yields_eof(source, position);
        scan_holds_no_eof(source, step(source, position).position);
    }
}

/// A successful scan ends with the end marker and holds it nowhere else; a
/// failed one returns at least one error.
pub proof fn eof_is_last_and_only(source: Seq<char>, position: nat)
    ensures
        match lex_from(source, position) {
            Ok(tokens) => {
                &&& tokens.len() >= 1
                &&& tokens.last() == TokenView::Eof
                &&& forall|index: int|
                    0 <= index < tokens.len() - 1 ==> tokens[index] != TokenView::Eof
            },
            Err(errors) => errors.len() >= 1,
        },
{
    scan_holds_no_eof(source, position);
}

/// A scan stops past the end of the text, so a second call of `lex` on the
/// same scanner finds nothing left: it returns the end marker alone.
pub proof fn scan_stops_past_the_end(source: Seq<char>, position: nat)
    ensures
        !has_more(source, scan_from(source, position).position),
        position <= scan_from(source, position).position,
        lex_from(source, scan_from(source, position).position) == Ok::<
            Seq<TokenView>,
            Seq<LexLuthorErrorView>,
        >(seq![TokenView::Eof]),
    decreases source.len() + 2 - position,
{
    if has_more(source, position) {
        lemma_step_advances(source, position);
        scan_stops_past_the_end(source, step(source, position).position);
    }
}

/// What `lex` returns depends on the text and the position alone: scanners
/// that agree on both return the same tokens or the same errors, and stop at
/// the same position.
pub proof fn same_text_same_result(first: LexLuthor, second: LexLuthor)
    requires
        first.source() == second.source(),
        first.position() == second.position(),
    ensures
        lex_from(first.source(), first.position()) == lex_from(
            second.source(),
            second.position(),
        ),
        scan_from(first.source(), first.position()) == scan_from(
            second.source(),
            second.position(),
        ),
{
}

} // verus!
