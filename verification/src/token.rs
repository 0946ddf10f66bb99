//! Tokens and their mathematical image.

use vstd::prelude::*;

verus! {

/// The four binary arithmetic operators.
#[derive(Debug, PartialEq, Eq, Clone, Copy)]
pub enum Op {
    Plus,
    Minus,
    Mult,
    Div,
}

/// A lexical token. Numeric literals and identifiers carry their source
/// text verbatim; an error token carries the 0-based character offset of
/// the offense and a message.
#[derive(Debug, PartialEq, Eq)]
pub enum Token {
    Ident(String),
    Decimal(String),
    Exp(String),
    LeftParen,
    RightParen,
    Assign,
    Operator(Op),
    Error { pos: usize, message: String },
}

/// The mathematical image of a token: the carried texts as character
/// sequences, positions as unbounded integers.
pub ghost enum SpecToken {
    Ident(Seq<char>),
    Decimal(Seq<char>),
    Exp(Seq<char>),
    LeftParen,
    RightParen,
    Assign,
    Operator(Op),
    Error { pos: int, message: Seq<char> },
}

impl View for Token {
    type V = SpecToken;

    open spec fn view(&self) -> SpecToken {
        match self {
            Token::Ident(t) => SpecToken::Ident(t@),
            Token::Decimal(t) => SpecToken::Decimal(t@),
            Token::Exp(t) => SpecToken::Exp(t@),
            Token::LeftParen => SpecToken::LeftParen,
            Token::RightParen => SpecToken::RightParen,
            Token::Assign => SpecToken::Assign,
            Token::Operator(op) => SpecToken::Operator(*op),
            Token::Error { pos, message } => SpecToken::Error {
                pos: *pos as int,
                message: message@,
            },
        }
    }
}

/// The image of an optional token.
pub open spec fn opt_token_view(t: Option<Token>) -> Option<SpecToken> {
    match t {
        Some(tok) => Some(tok@),
        None => None,
    }
}

} // verus!
