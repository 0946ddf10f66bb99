use compilers::lexer::Lexer;
use compilers::token::{Op, Token};

fn lex_all(input: &str) -> Vec<Token> {
    let mut lexer = Lexer::new(input.chars().collect());
    let mut tokens = Vec::new();
    while let Some(token) = lexer.next() {
        tokens.push(token);
    }
    tokens
}

#[test]
fn lex_number() {
    let tests = vec![
        ("20", Token::Decimal("20".to_string())),
        ("-20", Token::Decimal("-20".to_string())),
        ("20.0", Token::Decimal("20.0".to_string())),
        ("0.5E10", Token::Exp("0.5E10".to_string())),
        ("5E2", Token::Exp("5E2".to_string())),
    ];
    for test_case in tests.iter() {
        let mut lexer = Lexer::new(test_case.0.chars().collect());
        assert_eq!(lexer.next().expect(""), test_case.1);
    }
}

#[test]
fn decimal_consumes_whole_input() {
    let mut lexer = Lexer::new("20.0".chars().collect());
    assert_eq!(lexer.next(), Some(Token::Decimal("20.0".to_string())));
    assert_eq!(lexer.next(), None);
}

#[test]
fn lowercase_exponent_marker() {
    let mut lexer = Lexer::new("3e8".chars().collect());
    assert_eq!(lexer.next(), Some(Token::Exp("3e8".to_string())));
    assert_eq!(lexer.next(), None);
}

#[test]
fn minus_after_operand_is_operator() {
    assert_eq!(
        lex_all("3 - 4"),
        vec![
            Token::Decimal("3".to_string()),
            Token::Operator(Op::Minus),
            Token::Decimal("4".to_string()),
        ]
    );
}

#[test]
fn minus_after_left_paren_is_sign() {
    assert_eq!(
        lex_all("(-4)"),
        vec![
            Token::LeftParen,
            Token::Decimal("-4".to_string()),
            Token::RightParen,
        ]
    );
}

#[test]
fn lone_colon_is_unknown_symbol() {
    let mut lexer = Lexer::new(":".chars().collect());
    assert_eq!(
        lexer.next(),
        Some(Token::Error { pos: 1, message: "Unknown symbol".to_string() })
    );
}

#[test]
fn colon_equals_is_assign() {
    let mut lexer = Lexer::new(":=".chars().collect());
    assert_eq!(lexer.next(), Some(Token::Assign));
    assert_eq!(lexer.next(), None);
}

#[test]
fn colon_error_position_counts_skipped_whitespace() {
    let mut lexer = Lexer::new("  : ".chars().collect());
    assert_eq!(
        lexer.next(),
        Some(Token::Error { pos: 3, message: "Unknown symbol".to_string() })
    );
}

#[test]
fn identifier_with_digits_and_underscore() {
    let mut lexer = Lexer::new("foo_1".chars().collect());
    assert_eq!(lexer.next(), Some(Token::Ident("foo_1".to_string())));
    assert_eq!(lexer.next(), None);
}

#[test]
fn bare_underscore_is_identifier() {
    let mut lexer = Lexer::new("_".chars().collect());
    assert_eq!(lexer.next(), Some(Token::Ident("_".to_string())));
    assert_eq!(lexer.next(), None);
}

#[test]
fn empty_input_yields_no_token() {
    let mut lexer = Lexer::new("".chars().collect());
    assert_eq!(lexer.next(), None);
}

#[test]
fn whitespace_only_yields_no_token() {
    let mut lexer = Lexer::new(" \t\r\n  ".chars().collect());
    assert_eq!(lexer.next(), None);
}

#[test]
fn unknown_token_error_at_offending_character() {
    let mut lexer = Lexer::new("#".chars().collect());
    assert_eq!(
        lexer.next(),
        Some(Token::Error { pos: 0, message: "Unknown token".to_string() })
    );
}

#[test]
fn unknown_token_is_consumed_for_progress() {
    // The offending character is consumed, so production continues past it.
    assert_eq!(
        lex_all("#a"),
        vec![
            Token::Error { pos: 0, message: "Unknown token".to_string() },
            Token::Ident("a".to_string()),
        ]
    );
}

#[test]
fn operators_and_parens() {
    assert_eq!(
        lex_all("(1 + 2) * 3 / x"),
        vec![
            Token::LeftParen,
            Token::Decimal("1".to_string()),
            Token::Operator(Op::Plus),
            Token::Decimal("2".to_string()),
            Token::RightParen,
            Token::Operator(Op::Mult),
            Token::Decimal("3".to_string()),
            Token::Operator(Op::Div),
            Token::Ident("x".to_string()),
        ]
    );
}

#[test]
fn assignment_statement() {
    assert_eq!(
        lex_all("x := -4"),
        vec![
            Token::Ident("x".to_string()),
            Token::Assign,
            // After the assignment operator an operand is expected, so the
            // `-` is the sign of the numeric literal.
            Token::Decimal("-4".to_string()),
        ]
    );
}

#[test]
fn degenerate_bare_minus_is_decimal() {
    let mut lexer = Lexer::new("-".chars().collect());
    assert_eq!(lexer.next(), Some(Token::Decimal("-".to_string())));
    assert_eq!(lexer.next(), None);
}

#[test]
fn signed_exponent_digits_are_not_part_of_the_literal() {
    assert_eq!(
        lex_all("5E-2"),
        vec![
            Token::Exp("5E".to_string()),
            Token::Operator(Op::Minus),
            Token::Decimal("2".to_string()),
        ]
    );
}

#[test]
fn unicode_letters_form_identifiers() {
    let mut lexer = Lexer::new("caf\u{e9}".chars().collect());
    assert_eq!(lexer.next(), Some(Token::Ident("caf\u{e9}".to_string())));
    assert_eq!(lexer.next(), None);
}

#[test]
fn round_trip_of_stored_texts() {
    for input in ["x_9", "-20.5", "0.5E10", "20", "_", "5e"] {
        let mut first = Lexer::new(input.chars().collect());
        let token = first.next().expect("");
        let text = match &token {
            Token::Ident(t) => t.clone(),
            Token::Decimal(t) => t.clone(),
            Token::Exp(t) => t.clone(),
            _ => panic!("expected a text-carrying token"),
        };
        let mut second = Lexer::new(text.chars().collect());
        assert_eq!(second.next().expect(""), token);
    }
}

#[test]
fn consumed_counts_sum_to_input_length() {
    // Every token consumes the characters it carries (structural tokens one,
    // the assignment operator two); together with the skipped whitespace the
    // counts of a full drain add up to the input length.
    let input = " x_1 := ( -2.5e8 + foo ) * 4 ";
    let consumed: usize = lex_all(input)
        .iter()
        .map(|token| match token {
            Token::Ident(t) => t.chars().count(),
            Token::Decimal(t) => t.chars().count(),
            Token::Exp(t) => t.chars().count(),
            Token::Assign => 2,
            Token::LeftParen | Token::RightParen | Token::Operator(_) => 1,
            Token::Error { .. } => panic!("input lexes without error"),
        })
        .sum();
    let whitespace = input.chars().filter(|c| c.is_whitespace()).count();
    assert_eq!(consumed + whitespace, input.chars().count());
}

#[test]
fn whitespace_between_all_tokens_is_skipped() {
    assert_eq!(
        lex_all("  a\t:=\n( 1.5 )  "),
        vec![
            Token::Ident("a".to_string()),
            Token::Assign,
            Token::LeftParen,
            Token::Decimal("1.5".to_string()),
            Token::RightParen,
        ]
    );
}
