use lex_luthor::lex_luthor::{LexLuthor, LexLuthorError};
use lex_luthor::source_code::SourceSpan;
use lex_luthor::token::Token;

#[test]
fn recognizes_tokens() {
    let test_cases = vec![
        (
            "{",
            vec![
                Token::LeftBrace(SourceSpan { line: 1, column: 1 }),
                Token::Eof,
            ],
        ),
        (
            "}",
            vec![
                Token::RightBrace(SourceSpan { line: 1, column: 1 }),
                Token::Eof,
            ],
        ),
        (
            "[",
            vec![
                Token::LeftBracket(SourceSpan { line: 1, column: 1 }),
                Token::Eof,
            ],
        ),
        (
            "]",
            vec![
                Token::RightBracket(SourceSpan { line: 1, column: 1 }),
                Token::Eof,
            ],
        ),
        (
            ",",
            vec![Token::Comma(SourceSpan { line: 1, column: 1 }), Token::Eof],
        ),
        (
            "+",
            vec![Token::Plus(SourceSpan { line: 1, column: 1 }), Token::Eof],
        ),
        (
            "-",
            vec![Token::Minus(SourceSpan { line: 1, column: 1 }), Token::Eof],
        ),
        (
            "/",
            vec![Token::Slash(SourceSpan { line: 1, column: 1 }), Token::Eof],
        ),
        (
            "*",
            vec![Token::Star(SourceSpan { line: 1, column: 1 }), Token::Eof],
        ),
        (
            "**",
            vec![
                Token::StarStar(SourceSpan { line: 1, column: 2 }),
                Token::Eof,
            ],
        ),
        (
            "%",
            vec![
                Token::Percent(SourceSpan { line: 1, column: 1 }),
                Token::Eof,
            ],
        ),
        (
            "%%",
            vec![
                Token::PercentPercent(SourceSpan { line: 1, column: 2 }),
                Token::Eof,
            ],
        ),
        (
            "=",
            vec![Token::Equal(SourceSpan { line: 1, column: 1 }), Token::Eof],
        ),
        (
            "!",
            vec![Token::Not(SourceSpan { line: 1, column: 1 }), Token::Eof],
        ),
        (
            "<",
            vec![
                Token::LessThan(SourceSpan { line: 1, column: 1 }),
                Token::Eof,
            ],
        ),
        (
            "<=",
            vec![
                Token::LessThanOrEqual(SourceSpan { line: 1, column: 2 }),
                Token::Eof,
            ],
        ),
        (
            ">",
            vec![
                Token::GreaterThan(SourceSpan { line: 1, column: 1 }),
                Token::Eof,
            ],
        ),
        (
            ">=",
            vec![
                Token::GreaterThanOrEqual(SourceSpan { line: 1, column: 2 }),
                Token::Eof,
            ],
        ),
        (
            "&",
            vec![
                Token::Ampersand(SourceSpan { line: 1, column: 1 }),
                Token::Eof,
            ],
        ),
        (
            "|",
            vec![Token::Pipe(SourceSpan { line: 1, column: 1 }), Token::Eof],
        ),
        (
            "(",
            vec![
                Token::LeftParen(SourceSpan { line: 1, column: 1 }),
                Token::Eof,
            ],
        ),
        (
            ")",
            vec![
                Token::RightParen(SourceSpan { line: 1, column: 1 }),
                Token::Eof,
            ],
        ),
        ("", vec![Token::Eof]),
    ];

    for (input, expected_output) in test_cases {
        let actual = LexLuthor::new(input.to_owned()).lex();

        assert_eq!(Ok(expected_output), actual);
    }
}

#[test]
fn errors_on_unknown_tokens() {
    let test_cases = vec![
        (
            "?",
            vec![LexLuthorError::UnexpectedCharacter {
                source_span: SourceSpan { line: 1, column: 1 },
                message: "unexpected character ?".to_owned(),
            }],
        ),
        (
            "+-=/    ?",
            vec![LexLuthorError::UnexpectedCharacter {
                source_span: SourceSpan { line: 1, column: 9 },
                message: "unexpected character ?".to_owned(),
            }],
        ),
    ];

    for (input, expected_error) in test_cases {
        let actual = LexLuthor::new(input.to_owned()).lex();

        assert_eq!(Err(expected_error), actual);
    }
}

#[test]
fn recognizes_lines_and_columns() {
    let test_cases = vec![
        (
            "+",
            Ok(vec![
                Token::Plus(SourceSpan { line: 1, column: 1 }),
                Token::Eof,
            ]),
        ),
        (
            "\n+",
            Ok(vec![
                Token::Plus(SourceSpan { line: 2, column: 1 }),
                Token::Eof,
            ]),
        ),
        (
            "+\n-",
            Ok(vec![
                Token::Plus(SourceSpan { line: 1, column: 1 }),
                Token::Minus(SourceSpan { line: 2, column: 1 }),
                Token::Eof,
            ]),
        ),
        (
            "\n\n\n     !",
            Ok(vec![
                Token::Not(SourceSpan { line: 4, column: 6 }),
                Token::Eof,
            ]),
        ),
    ];

    for (input, expected) in test_cases {
        let actual = LexLuthor::new(input.to_owned()).lex();

        assert_eq!(expected, actual);
    }
}

#[test]
fn keywords() {
    let test_cases = vec![
        (
            "program",
            vec![
                Token::Program(SourceSpan { line: 1, column: 7 }),
                Token::Eof,
            ],
        ),
        (
            "define",
            vec![Token::Define(SourceSpan { line: 1, column: 6 }), Token::Eof],
        ),
        (
            "not",
            vec![Token::Not(SourceSpan { line: 1, column: 3 }), Token::Eof],
        ),
        (
            "variable",
            vec![
                Token::Variable(SourceSpan { line: 1, column: 8 }),
                Token::Eof,
            ],
        ),
        (
            "is",
            vec![Token::Is(SourceSpan { line: 1, column: 2 }), Token::Eof],
        ),
        (
            "natural",
            vec![
                Token::Natural(SourceSpan { line: 1, column: 7 }),
                Token::Eof,
            ],
        ),
        (
            "real",
            vec![Token::Real(SourceSpan { line: 1, column: 4 }), Token::Eof],
        ),
        (
            "char",
            vec![Token::Char(SourceSpan { line: 1, column: 4 }), Token::Eof],
        ),
        (
            "boolean",
            vec![
                Token::Boolean(SourceSpan { line: 1, column: 7 }),
                Token::Eof,
            ],
        ),
        (
            "execute",
            vec![
                Token::Execute(SourceSpan { line: 1, column: 7 }),
                Token::Eof,
            ],
        ),
        (
            "set",
            vec![Token::SetKeyword(SourceSpan { line: 1, column: 3 }), Token::Eof],
        ),
        (
            "get",
            vec![Token::Get(SourceSpan { line: 1, column: 3 }), Token::Eof],
        ),
        (
            "to",
            vec![Token::To(SourceSpan { line: 1, column: 2 }), Token::Eof],
        ),
        (
            "put",
            vec![Token::Put(SourceSpan { line: 1, column: 3 }), Token::Eof],
        ),
        (
            "loop",
            vec![Token::Loop(SourceSpan { line: 1, column: 4 }), Token::Eof],
        ),
        (
            "while",
            vec![Token::While(SourceSpan { line: 1, column: 5 }), Token::Eof],
        ),
        (
            "do",
            vec![Token::Do(SourceSpan { line: 1, column: 2 }), Token::Eof],
        ),
        (
            "true",
            vec![Token::True(SourceSpan { line: 1, column: 4 }), Token::Eof],
        ),
        (
            "false",
            vec![Token::False(SourceSpan { line: 1, column: 5 }), Token::Eof],
        ),
    ];

    for (input, expected) in test_cases {
        let actual = LexLuthor::new(input.to_owned()).lex();

        assert_eq!(Ok(expected), actual);
    }
}

#[test]
fn identifiers() {
    let test_cases = vec![
        (
            "x",
            Ok(vec![
                Token::Identifier("x".to_owned(), SourceSpan { line: 1, column: 1 }),
                Token::Eof,
            ]),
        ),
        (
            "_x",
            Ok(vec![
                Token::Identifier("_x".to_owned(), SourceSpan { line: 1, column: 2 }),
                Token::Eof,
            ]),
        ),
        (
            "_",
            Ok(vec![
                Token::Identifier("_".to_owned(), SourceSpan { line: 1, column: 1 }),
                Token::Eof,
            ]),
        ),
        (
            "x__",
            Err(vec![LexLuthorError::InvalidIdentifier {
                source_span: SourceSpan { line: 1, column: 3 },
                message: "x__ is not a valid identifier, _ must be followed by a letter".to_owned(),
            }]),
        ),
        (
            "x2",
            Err(vec![LexLuthorError::InvalidIdentifier {
                source_span: SourceSpan { line: 1, column: 2 },
                message: "x2 is not a valid identifier, 2 must be followed by a letter".to_owned(),
            }]),
        ),
        (
            "x2y_z2w",
            Ok(vec![
                Token::Identifier("x2y_z2w".to_owned(), SourceSpan { line: 1, column: 7 }),
                Token::Eof,
            ]),
        ),
        (
            "__",
            Err(vec![LexLuthorError::InvalidIdentifier {
                source_span: SourceSpan { line: 1, column: 2 },
                message: "__ is not a valid identifier, _ must be followed by a letter".to_owned(),
            }]),
        ),
        (
            "__variable_name",
            Err(vec![LexLuthorError::InvalidIdentifier {
                source_span: SourceSpan {
                    line: 1,
                    column: 15,
                },
                message: "__variable_name is not a valid identifier, _ must be followed by a letter"
                    .to_owned(),
            }]),
        ),
    ];

    for (input, expected) in test_cases {
        let actual = LexLuthor::new(input.to_owned()).lex();

        assert_eq!(expected, actual);
    }
}
