//! The scanner.

use crate::characters::{
    is_letter, is_whitespace, is_word_character, is_word_start, needs_letter_after,
    spec_is_word_start,
};
use crate::grammar::{
    after_whitespace, after_word, breaks_shape, current_character, first_break, first_break_from,
    has_more, invalid_identifier_message, lemma_after_whitespace, lemma_after_word,
    lemma_step_advances, lex_from, next_character, scan_from, step, unexpected_character_message,
    word_text,
};
use crate::source_code::{column_at, lemma_span_bounds, line_at, span_at, SourceSpan};
use crate::text::{characters_of, push_char};
use crate::token::{token_from_identifier_or_keyword, tokens_view, Token, TokenView};
use vstd::prelude::*;
use vstd::string::StringExecFns;

verus! {

/// A lexical defect, with the position at which the scanner stood when it
/// found it and a message for the user.
#[derive(Debug, PartialEq)]
pub enum LexLuthorError {
    /// A character that starts no token.
    UnexpectedCharacter { source_span: SourceSpan, message: String },
    /// A word that does not have the shape of an identifier.
    InvalidIdentifier { source_span: SourceSpan, message: String },
}

/// What an error is, with its message as a sequence of characters.
pub enum LexLuthorErrorView {
    UnexpectedCharacter { source_span: SourceSpan, message: Seq<char> },
    InvalidIdentifier { source_span: SourceSpan, message: Seq<char> },
}

impl View for LexLuthorError {
    type V = LexLuthorErrorView;

    open spec fn view(&self) -> LexLuthorErrorView {
        match *self {
            LexLuthorError::UnexpectedCharacter { source_span, message } => {
                LexLuthorErrorView::UnexpectedCharacter { source_span, message: message@ }
            },
            LexLuthorError::InvalidIdentifier { source_span, message } => {
                LexLuthorErrorView::InvalidIdentifier { source_span, message: message@ }
            },
        }
    }
}

impl LexLuthorErrorView {
    /// The position an error carries.
    pub open spec fn source_span(self) -> SourceSpan {
        match self {
            LexLuthorErrorView::UnexpectedCharacter { source_span, .. } => source_span,
            LexLuthorErrorView::InvalidIdentifier { source_span, .. } => source_span,
        }
    }
}

/// The views of a sequence of errors, in order.
pub open spec fn errors_view(errors: Seq<LexLuthorError>) -> Seq<LexLuthorErrorView> {
    errors.map_values(|error: LexLuthorError| error@)
}

/// Builds the message for a character that starts no token.
pub fn unexpected_character(c: char) -> (message: String)
    ensures
        message@ == unexpected_character_message(c),
{
    let mut message = String::from_str("unexpected character ");
    push_char(&mut message, c);
    message
}

/// Builds the message for a word that breaks the shape of an identifier at
/// the character `c`.
pub fn invalid_identifier(text: String, c: char) -> (message: String)
    ensures
        message@ == invalid_identifier_message(text@, c),
{
    let mut message = text;
    message.append(" is not a valid identifier, ");
    push_char(&mut message, c);
    message.append(" must be followed by a letter");
    message
}

/// Finds where the word `characters[from..to]` first breaks the shape of an
/// identifier, as an index into the word.
pub fn find_first_break(characters: &Vec<char>, from: usize, to: usize) -> (found: Option<usize>)
    requires
        from <= to <= characters@.len(),
    ensures
        match found {
            Some(index) => {
                &&& index < to - from
                &&& first_break(characters@.subrange(from as int, to as int)) == Some(
                    index as nat,
                )
            },
            None => first_break(characters@.subrange(from as int, to as int)) is None,
        },
{
    let length = to - from;
    if length == 1 {
        return None;
    }
    let ghost text = characters@.subrange(from as int, to as int);
    let mut index: usize = 0;
    while index < length
        invariant
            from + length == to,
            length != 1,
            to <= characters@.len(),
            index <= length,
            text == characters@.subrange(from as int, to as int),
            first_break_from(text, index as nat) == first_break_from(text, 0),
        decreases length - index,
    {
        let followed_by_letter = index + 1 < length && is_letter(characters[from + index + 1]);
        if needs_letter_after(characters[from + index]) && !followed_by_letter {
            return Some(index);
        }
        index = index + 1;
    }
    None
}

/// Where the scanner stands: how many characters it has read, the line and
/// column that makes, and the last character read.
#[derive(Debug, Clone, Copy)]
struct Cursor {
    position: usize,
    line: usize,
    column: usize,
    character: char,
}

/// A scanner over one source text. It is made for one call of `lex`.
#[derive(Debug)]
pub struct LexLuthor {
    source_code: Vec<char>,
    cursor: Cursor,
}

impl LexLuthor {
    /// Line, column and current character are those of the position, and the
    /// position can still be counted two past the end of the text.
    #[verifier::type_invariant]
    spec fn well_formed(self) -> bool {
        &&& self.source_code@.len() + 2 <= usize::MAX
        &&& self.cursor.position <= self.source_code@.len() + 2
        &&& self.cursor.line == line_at(self.source_code@, self.cursor.position as nat)
        &&& self.cursor.column == column_at(self.source_code@, self.cursor.position as nat)
        &&& self.cursor.character == current_character(
            self.source_code@,
            self.cursor.position as nat,
        )
    }

    /// The text being scanned.
    pub closed spec fn source(&self) -> Seq<char> {
        self.source_code@
    }

    /// The number of characters read so far, reads past the end included.
    pub closed spec fn position(&self) -> nat {
        self.cursor.position as nat
    }

    /// A scanner over `source_code` that has read its first character.
    pub fn new(source_code: String) -> (lex_luthor: LexLuthor)
        requires
            source_code@.len() + 2 <= usize::MAX,
        ensures
            lex_luthor.source() == source_code@,
            lex_luthor.position() == 1,
    {
        let mut lex_luthor = LexLuthor {
            source_code: characters_of(source_code.as_str()),
            cursor: Cursor { position: 0, line: 1, column: 0, character: '\0' },
        };

        lex_luthor.read_character();

        lex_luthor
    }

    fn current_source_span(&self) -> (span: SourceSpan)
        ensures
            span == span_at(self.source(), self.position()),
    {
        proof {
            use_type_invariant(self);
        }
        SourceSpan { line: self.cursor.line, column: self.cursor.column }
    }

    fn has_characters_to_lex(&self) -> (more: bool)
        ensures
            more == has_more(self.source(), self.position()),
    {
        self.cursor.position <= self.source_code.len()
    }

    fn peek(&self) -> (next: Option<char>)
        ensures
            next == next_character(self.source(), self.position()),
    {
        if self.cursor.position < self.source_code.len() {
            Some(self.source_code[self.cursor.position])
        } else {
            None
        }
    }

    fn next_character_is(&self, expected_character: char) -> (is_next: bool)
        ensures
            is_next == (next_character(self.source(), self.position()) == Some(
                expected_character,
            )),
    {
        match self.peek() {
            None => false,
            Some(character) => character == expected_character,
        }
    }

    /// Reads one character, or the null character where the text has ended;
    /// the position counts the read either way.
    fn read_character(&mut self)
        requires
            old(self).position() <= old(self).source().len() + 1,
        ensures
            final(self).source() == old(self).source(),
            final(self).position() == old(self).position() + 1,
    {
        proof {
            use_type_invariant(&*self);
            lemma_span_bounds(self.source_code@, self.cursor.position as nat);
        }
        let Cursor { position, line, column, character: _ } = self.cursor;
        self.cursor = if position < self.source_code.len() {
            let character = self.source_code[position];
            if character == '\n' {
                Cursor { position: position + 1, line: line + 1, column: 0, character }
            } else {
                Cursor { position: position + 1, line, column: column + 1, character }
            }
        } else {
            Cursor { position: position + 1, line, column, character: '\0' }
        };
    }

    /// Reads the word under the cursor and checks its shape.
    fn read_identifier_or_keyword(&mut self) -> (word: Result<String, LexLuthorError>)
        requires
            spec_is_word_start(current_character(old(self).source(), old(self).position())),
        ensures
            final(self).source() == old(self).source(),
            final(self).position() == after_word(old(self).source(), old(self).position()),
            match word {
                Ok(text) => {
                    &&& first_break(word_text(old(self).source(), old(self).position())) is None
                    &&& text@ == word_text(old(self).source(), old(self).position())
                },
                Err(error) => {
                    &&& first_break(word_text(old(self).source(), old(self).position())) is Some
                    &&& error@ == (LexLuthorErrorView::InvalidIdentifier {
                        source_span: span_at(
                            old(self).source(),
                            after_word(old(self).source(), old(self).position()),
                        ),
                        message: invalid_identifier_message(
                            word_text(old(self).source(), old(self).position()),
                            word_text(old(self).source(), old(self).position())[first_break(
                                word_text(old(self).source(), old(self).position()),
                            )->0 as int],
                        ),
                    })
                },
            },
    {
        proof {
            use_type_invariant(&*self);
        }
        let ghost source = self.source_code@;
        let ghost first = self.cursor.position as nat;
        let start = self.cursor.position - 1;
        let mut text = String::new();

        while is_word_character(self.cursor.character)
            invariant
                self.source_code@ == source,
                source.len() + 2 <= usize::MAX,
                first == start + 1,
                first <= self.cursor.position <= source.len() + 1,
                self.cursor.character == current_character(source, self.cursor.position as nat),
                after_word(source, self.cursor.position as nat) == after_word(source, first),
                text@ == source.subrange(start as int, self.cursor.position - 1),
            decreases source.len() + 1 - self.cursor.position,
        {
            push_char(&mut text, self.cursor.character);
            self.read_character();
            proof {
                use_type_invariant(&*self);
            }
        }

        let end = self.cursor.position - 1;
        match find_first_break(&self.source_code, start, end) {
            None => Ok(text),
            Some(index) => Err(
                LexLuthorError::InvalidIdentifier {
                    message: invalid_identifier(text, self.source_code[start + index]),
                    source_span: self.current_source_span(),
                },
            ),
        }
    }

    /// Passes over whitespace.
    fn skip_whitespace(&mut self)
        requires
            old(self).position() <= old(self).source().len() + 1,
        ensures
            final(self).source() == old(self).source(),
            final(self).position() == after_whitespace(old(self).source(), old(self).position()),
    {
        proof {
            use_type_invariant(&*self);
        }
        let ghost source = self.source_code@;
        let ghost first = self.cursor.position as nat;
        while is_whitespace(self.cursor.character)
            invariant
                self.source_code@ == source,
                self.cursor.position <= source.len() + 1,
                self.cursor.character == current_character(source, self.cursor.position as nat),
                after_whitespace(source, self.cursor.position as nat) == after_whitespace(
                    source,
                    first,
                ),
            decreases source.len() + 1 - self.cursor.position,
        {
            self.read_character();
            proof {
                use_type_invariant(&*self);
            }
        }
    }

    /// Makes one attempt at a token: passes over whitespace, then reads a
    /// token or reports why there is none.
    fn next_token(&mut self) -> (outcome: Result<Token, LexLuthorError>)
        requires
            has_more(old(self).source(), old(self).position()),
        ensures
            final(self).source() == old(self).source(),
            final(self).position() == step(old(self).source(), old(self).position()).position,
            match outcome {
                Ok(token) => step(old(self).source(), old(self).position()).outcome == Ok::<
                    TokenView,
                    LexLuthorErrorView,
                >(token@),
                Err(error) => step(old(self).source(), old(self).position()).outcome == Err::<
                    TokenView,
                    LexLuthorErrorView,
                >(error@),
            },
    {
        let ghost source = self.source_code@;
        proof {
            use_type_invariant(&*self);
            lemma_after_whitespace(source, self.cursor.position as nat);
        }
        self.skip_whitespace();
        proof {
            use_type_invariant(&*self);
            lemma_after_word(source, self.cursor.position as nat);
        }

        let character = self.cursor.character;
        let token = match character {
            '{' => Token::LeftBrace(self.current_source_span()),
            '}' => Token::RightBrace(self.current_source_span()),
            '[' => Token::LeftBracket(self.current_source_span()),
            ']' => Token::RightBracket(self.current_source_span()),
            ',' => Token::Comma(self.current_source_span()),
            '+' => Token::Plus(self.current_source_span()),
            '-' => Token::Minus(self.current_source_span()),
            '/' => Token::Slash(self.current_source_span()),
            '*' => {
                if self.next_character_is('*') {
                    self.read_character();
                    Token::StarStar(self.current_source_span())
                } else {
                    Token::Star(self.current_source_span())
                }
            },
            '%' => {
                if self.next_character_is('%') {
                    self.read_character();
                    Token::PercentPercent(self.current_source_span())
                } else {
                    Token::Percent(self.current_source_span())
                }
            },
            '=' => Token::Equal(self.current_source_span()),
            '!' => {
                if self.next_character_is('=') {
                    self.read_character();
                    Token::NotEqual(self.current_source_span())
                } else {
                    Token::Not(self.current_source_span())
                }
            },
            '<' => {
                if self.next_character_is('=') {
                    self.read_character();
                    Token::LessThanOrEqual(self.current_source_span())
                } else {
                    Token::LessThan(self.current_source_span())
                }
            },
            '>' => {
                if self.next_character_is('=') {
                    self.read_character();
                    Token::GreaterThanOrEqual(self.current_source_span())
                } else {
                    Token::GreaterThan(self.current_source_span())
                }
            },
            '&' => Token::Ampersand(self.current_source_span()),
            '|' => Token::Pipe(self.current_source_span()),
            '(' => Token::LeftParen(self.current_source_span()),
            ')' => Token::RightParen(self.current_source_span()),
            _ => {
                if is_word_start(character) {
                    match self.read_identifier_or_keyword() {
                        Ok(identifier_or_keyword) => token_from_identifier_or_keyword(
                            identifier_or_keyword,
                            self.current_source_span(),
                        ),
                        Err(error) => {
                            return Err(error);
                        },
                    }
                } else {
                    self.read_character();
                    return Err(
                        LexLuthorError::UnexpectedCharacter {
                            source_span: self.current_source_span(),
                            message: unexpected_character(character),
                        },
                    );
                }
            },
        };

        self.read_character();

        Ok(token)
    }

    /// Scans the rest of the text. Every attempt is made, whether or not an
    /// earlier one failed: the result is every error if there is one, else
    /// every token followed by `Eof`.
    pub fn lex(&mut self) -> (result: Result<Vec<Token>, Vec<LexLuthorError>>)
        ensures
            final(self).source() == old(self).source(),
            final(self).position() == scan_from(old(self).source(), old(self).position()).position,
            match result {
                Ok(tokens) => lex_from(old(self).source(), old(self).position()) == Ok::<
                    Seq<TokenView>,
                    Seq<LexLuthorErrorView>,
                >(tokens_view(tokens@)),
                Err(errors) => lex_from(old(self).source(), old(self).position()) == Err::<
                    Seq<TokenView>,
                    Seq<LexLuthorErrorView>,
                >(errors_view(errors@)),
            },
    {
        let ghost source = self.source_code@;
        let ghost first = self.cursor.position as nat;
        let mut tokens: Vec<Token> = Vec::new();
        let mut errors: Vec<LexLuthorError> = Vec::new();
        proof {
            use_type_invariant(&*self);
        }

        while self.has_characters_to_lex()
            invariant
                self.source_code@ == source,
                self.cursor.position <= source.len() + 2,
                scan_from(source, first).tokens == tokens_view(tokens@) + scan_from(
                    source,
                    self.cursor.position as nat,
                ).tokens,
                scan_from(source, first).errors == errors_view(errors@) + scan_from(
                    source,
                    self.cursor.position as nat,
                ).errors,
                scan_from(source, first).position == scan_from(
                    source,
                    self.cursor.position as nat,
                ).position,
            decreases source.len() + 2 - self.cursor.position,
        {
            proof {
                lemma_step_advances(source, self.cursor.position as nat);
            }
            match self.next_token() {
                Ok(token) => tokens.push(token),
                Err(error) => errors.push(error),
            }
            proof {
                use_type_invariant(&*self);
            }
        }

        if errors.len() > 0 {
            Err(errors)
        } else {
            tokens.push(Token::Eof);
            proof {
                assert(tokens_view(tokens@) == scan_from(source, first).tokens.push(
                    TokenView::Eof,
                ));
            }
            Ok(tokens)
        }
    }
}

} // verus!
