//! Tokens: the classified units of source text.

use crate::source_code::SourceSpan;
use crate::text::same_text;
use vstd::prelude::*;

verus! {

/// A token. Every token but `Eof` carries the position at which the scanner
/// stood when it had read the token's last character.
#[derive(Debug, PartialEq)]
pub enum Token {
    LeftBrace(SourceSpan),
    RightBrace(SourceSpan),
    LeftBracket(SourceSpan),
    RightBracket(SourceSpan),
    LeftParen(SourceSpan),
    RightParen(SourceSpan),
    Comma(SourceSpan),
    Plus(SourceSpan),
    Minus(SourceSpan),
    Star(SourceSpan),
    StarStar(SourceSpan),
    Slash(SourceSpan),
    Percent(SourceSpan),
    PercentPercent(SourceSpan),
    Equal(SourceSpan),
    NotEqual(SourceSpan),
    LessThan(SourceSpan),
    LessThanOrEqual(SourceSpan),
    GreaterThan(SourceSpan),
    GreaterThanOrEqual(SourceSpan),
    Ampersand(SourceSpan),
    Pipe(SourceSpan),
    Not(SourceSpan),
    Identifier(String, SourceSpan),
    Program(SourceSpan),
    Define(SourceSpan),
    Variable(SourceSpan),
    Is(SourceSpan),
    Natural(SourceSpan),
    Real(SourceSpan),
    Char(SourceSpan),
    Boolean(SourceSpan),
    Execute(SourceSpan),
    SetKeyword(SourceSpan),
    Get(SourceSpan),
    To(SourceSpan),
    Put(SourceSpan),
    Loop(SourceSpan),
    While(SourceSpan),
    Do(SourceSpan),
    True(SourceSpan),
    False(SourceSpan),
    /// The end of the text: the last token of every successful scan.
    Eof,
}

/// What a token is, with the text of an identifier as a sequence of
/// characters.
pub enum TokenView {
    LeftBrace(SourceSpan),
    RightBrace(SourceSpan),
    LeftBracket(SourceSpan),
    RightBracket(SourceSpan),
    LeftParen(SourceSpan),
    RightParen(SourceSpan),
    Comma(SourceSpan),
    Plus(SourceSpan),
    Minus(SourceSpan),
    Star(SourceSpan),
    StarStar(SourceSpan),
    Slash(SourceSpan),
    Percent(SourceSpan),
    PercentPercent(SourceSpan),
    Equal(SourceSpan),
    NotEqual(SourceSpan),
    LessThan(SourceSpan),
    LessThanOrEqual(SourceSpan),
    GreaterThan(SourceSpan),
    GreaterThanOrEqual(SourceSpan),
    Ampersand(SourceSpan),
    Pipe(SourceSpan),
    Not(SourceSpan),
    Identifier(Seq<char>, SourceSpan),
    Program(SourceSpan),
    Define(SourceSpan),
    Variable(SourceSpan),
    Is(SourceSpan),
    Natural(SourceSpan),
    Real(SourceSpan),
    Char(SourceSpan),
    Boolean(SourceSpan),
    Execute(SourceSpan),
    SetKeyword(SourceSpan),
    Get(SourceSpan),
    To(SourceSpan),
    Put(SourceSpan),
    Loop(SourceSpan),
    While(SourceSpan),
    Do(SourceSpan),
    True(SourceSpan),
    False(SourceSpan),
    Eof,
}

impl View for Token {
    type V = TokenView;

    open spec fn view(&self) -> TokenView {
        match *self {
            Token::LeftBrace(span) => TokenView::LeftBrace(span),
            Token::RightBrace(span) => TokenView::RightBrace(span),
            Token::LeftBracket(span) => TokenView::LeftBracket(span),
            Token::RightBracket(span) => TokenView::RightBracket(span),
            Token::LeftParen(span) => TokenView::LeftParen(span),
            Token::RightParen(span) => TokenView::RightParen(span),
            Token::Comma(span) => TokenView::Comma(span),
            Token::Plus(span) => TokenView::Plus(span),
            Token::Minus(span) => TokenView::Minus(span),
            Token::Star(span) => TokenView::Star(span),
            Token::StarStar(span) => TokenView::StarStar(span),
            Token::Slash(span) => TokenView::Slash(span),
            Token::Percent(span) => TokenView::Percent(span),
            Token::PercentPercent(span) => TokenView::PercentPercent(span),
            Token::Equal(span) => TokenView::Equal(span),
            Token::NotEqual(span) => TokenView::NotEqual(span),
            Token::LessThan(span) => TokenView::LessThan(span),
            Token::LessThanOrEqual(span) => TokenView::LessThanOrEqual(span),
            Token::GreaterThan(span) => TokenView::GreaterThan(span),
            Token::GreaterThanOrEqual(span) => TokenView::GreaterThanOrEqual(span),
            Token::Ampersand(span) => TokenView::Ampersand(span),
            Token::Pipe(span) => TokenView::Pipe(span),
            Token::Not(span) => TokenView::Not(span),
            Token::Program(span) => TokenView::Program(span),
            Token::Define(span) => TokenView::Define(span),
            Token::Variable(span) => TokenView::Variable(span),
            Token::Is(span) => TokenView::Is(span),
            Token::Natural(span) => TokenView::Natural(span),
            Token::Real(span) => TokenView::Real(span),
            Token::Char(span) => TokenView::Char(span),
            Token::Boolean(span) => TokenView::Boolean(span),
            Token::Execute(span) => TokenView::Execute(span),
            Token::SetKeyword(span) => TokenView::SetKeyword(span),
            Token::Get(span) => TokenView::Get(span),
            Token::To(span) => TokenView::To(span),
            Token::Put(span) => TokenView::Put(span),
            Token::Loop(span) => TokenView::Loop(span),
            Token::While(span) => TokenView::While(span),
            Token::Do(span) => TokenView::Do(span),
            Token::True(span) => TokenView::True(span),
            Token::False(span) => TokenView::False(span),
            Token::Identifier(text, span) => TokenView::Identifier(text@, span),
            Token::Eof => TokenView::Eof,
        }
    }
}

impl TokenView {
    /// The position a token carries; `Eof` carries none.
    pub open spec fn span(self) -> Option<SourceSpan> {
        match self {
            TokenView::LeftBrace(span) => Some(span),
            TokenView::RightBrace(span) => Some(span),
            TokenView::LeftBracket(span) => Some(span),
            TokenView::RightBracket(span) => Some(span),
            TokenView::LeftParen(span) => Some(span),
            TokenView::RightParen(span) => Some(span),
            TokenView::Comma(span) => Some(span),
            TokenView::Plus(span) => Some(span),
            TokenView::Minus(span) => Some(span),
            TokenView::Star(span) => Some(span),
            TokenView::StarStar(span) => Some(span),
            TokenView::Slash(span) => Some(span),
            TokenView::Percent(span) => Some(span),
            TokenView::PercentPercent(span) => Some(span),
            TokenView::Equal(span) => Some(span),
            TokenView::NotEqual(span) => Some(span),
            TokenView::LessThan(span) => Some(span),
            TokenView::LessThanOrEqual(span) => Some(span),
            TokenView::GreaterThan(span) => Some(span),
            TokenView::GreaterThanOrEqual(span) => Some(span),
            TokenView::Ampersand(span) => Some(span),
            TokenView::Pipe(span) => Some(span),
            TokenView::Not(span) => Some(span),
            TokenView::Program(span) => Some(span),
            TokenView::Define(span) => Some(span),
            TokenView::Variable(span) => Some(span),
            TokenView::Is(span) => Some(span),
            TokenView::Natural(span) => Some(span),
            TokenView::Real(span) => Some(span),
            TokenView::Char(span) => Some(span),
            TokenView::Boolean(span) => Some(span),
            TokenView::Execute(span) => Some(span),
            TokenView::SetKeyword(span) => Some(span),
            TokenView::Get(span) => Some(span),
            TokenView::To(span) => Some(span),
            TokenView::Put(span) => Some(span),
            TokenView::Loop(span) => Some(span),
            TokenView::While(span) => Some(span),
            TokenView::Do(span) => Some(span),
            TokenView::True(span) => Some(span),
            TokenView::False(span) => Some(span),
            TokenView::Identifier(_, span) => Some(span),
            TokenView::Eof => None,
        }
    }
}

/// The views of a sequence of tokens, in order.
pub open spec fn tokens_view(tokens: Seq<Token>) -> Seq<TokenView> {
    tokens.map_values(|token: Token| token@)
}

/// The token of a reserved word, or `None` for any other text. The table is
/// case-sensitive.
pub open spec fn keyword_token(text: Seq<char>, span: SourceSpan) -> Option<TokenView> {
    if text == "program"@ {
        Some(TokenView::Program(span))
    } else if text == "define"@ {
        Some(TokenView::Define(span))
    } else if text == "not"@ {
        Some(TokenView::Not(span))
    } else if text == "variable"@ {
        Some(TokenView::Variable(span))
    } else if text == "is"@ {
        Some(TokenView::Is(span))
    } else if text == "natural"@ {
        Some(TokenView::Natural(span))
    } else if text == "real"@ {
        Some(TokenView::Real(span))
    } else if text == "char"@ {
        Some(TokenView::Char(span))
    } else if text == "boolean"@ {
        Some(TokenView::Boolean(span))
    } else if text == "execute"@ {
        Some(TokenView::Execute(span))
    } else if text == "set"@ {
        Some(TokenView::SetKeyword(span))
    } else if text == "get"@ {
        Some(TokenView::Get(span))
    } else if text == "to"@ {
        Some(TokenView::To(span))
    } else if text == "put"@ {
        Some(TokenView::Put(span))
    } else if text == "loop"@ {
        Some(TokenView::Loop(span))
    } else if text == "while"@ {
        Some(TokenView::While(span))
    } else if text == "do"@ {
        Some(TokenView::Do(span))
    } else if text == "true"@ {
        Some(TokenView::True(span))
    } else if text == "false"@ {
        Some(TokenView::False(span))
    } else {
        None
    }
}

/// Whether a text is one of the reserved words.
pub open spec fn is_keyword(text: Seq<char>) -> bool {
    keyword_token(text, SourceSpan { line: 1, column: 1 }) is Some
}

/// The token of a word: that of the reserved word it spells, else an
/// identifier with the word as its text.
pub open spec fn word_token(text: Seq<char>, span: SourceSpan) -> TokenView {
    match keyword_token(text, span) {
        Some(token) => token,
        None => TokenView::Identifier(text, span),
    }
}

/// Classifies a word as a reserved word or an identifier.
pub fn token_from_identifier_or_keyword(identifier_or_keyword: String, source_span: SourceSpan) -> (token: Token)
    ensures
        token@ == word_token(identifier_or_keyword@, source_span),
{
    let word = identifier_or_keyword.as_str();
    if same_text(word, "program") {
        Token::Program(source_span)
    } else if same_text(word, "define") {
        Token::Define(source_span)
    } else if same_text(word, "not") {
        Token::Not(source_span)
    } else if same_text(word, "variable") {
        Token::Variable(source_span)
    } else if same_text(word, "is") {
        Token::Is(source_span)
    } else if same_text(word, "natural") {
        Token::Natural(source_span)
    } else if same_text(word, "real") {
        Token::Real(source_span)
    } else if same_text(word, "char") {
        Token::Char(source_span)
    } else if same_text(word, "boolean") {
        Token::Boolean(source_span)
    } else if same_text(word, "execute") {
        Token::Execute(source_span)
    } else if same_text(word, "set") {
        Token::SetKeyword(source_span)
    } else if same_text(word, "get") {
        Token::Get(source_span)
    } else if same_text(word, "to") {
        Token::To(source_span)
    } else if same_text(word, "put") {
        Token::Put(source_span)
    } else if same_text(word, "loop") {
        Token::Loop(source_span)
    } else if same_text(word, "while") {
        Token::While(source_span)
    } else if same_text(word, "do") {
        Token::Do(source_span)
    } else if same_text(word, "true") {
        Token::True(source_span)
    } else if same_text(word, "false") {
        Token::False(source_span)
    } else {
        Token::Identifier(identifier_or_keyword, source_span)
    }
}

} // verus!
