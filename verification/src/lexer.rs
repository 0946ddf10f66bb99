//! The executable lexer: a stateful cursor over a character source that
//! produces tokens on demand.

use vstd::prelude::*;
use crate::chars::{
    CharClass, run_end, in_class, class_matches, char_is_whitespace, char_is_digit,
    char_is_alphabetic, lemma_run_end_bounds,
};
use crate::model::{
    LexState, init_state, step, sign_end, int_end, frac_end, has_exp_marker, number_end,
    number_token, ident_end, lemma_number_stages,
};
use crate::token::{Op, Token, SpecToken, opt_token_view};

verus! {

/// Relies on `String::push`: appends the given character to the end of the
/// string.
#[verifier::external_body]
pub(crate) fn push_char(s: &mut String, c: char)
    ensures
        final(s)@ == old(s)@.push(c),
{
    s.push(c);
}

/// A pull-based lexer over a character source. `pos` counts the characters
/// consumed so far and is the cursor into `input`; `width` counts the
/// characters of the token currently being assembled, and is folded into
/// `pos` when that token completes; `operator_expected` is true exactly
/// when the most recently emitted token may legally be followed by a binary
/// operator; `buffer` accumulates the text of the token under construction.
pub struct Lexer {
    input: Vec<char>,
    pos: usize,
    width: usize,
    operator_expected: bool,
    buffer: String,
}

impl View for Lexer {
    type V = LexState;

    closed spec fn view(&self) -> LexState {
        LexState {
            input: self.input@,
            pos: self.pos as int,
            operator_expected: self.operator_expected,
        }
    }
}

impl Lexer {
    /// Between two production calls no token is in flight and the cursor
    /// lies within the source.
    pub closed spec fn wf(self) -> bool {
        self.pos <= self.input@.len() && self.width == 0
    }

    /// A fresh lexer over `input`, positioned at offset 0.
    pub fn new(input: Vec<char>) -> (r: Lexer)
        ensures
            r.wf(),
            r@ == init_state(input@),
    {
        Lexer { input, pos: 0, width: 0, operator_expected: false, buffer: String::new() }
    }

    /// Consume the next character into the token under construction if it
    /// belongs to the class, and report whether it did.
    fn accept(&mut self, cl: CharClass) -> (r: bool)
        requires
            old(self).pos + old(self).width <= old(self).input@.len(),
        ensures
            final(self).input@ == old(self).input@,
            final(self).pos == old(self).pos,
            final(self).operator_expected == old(self).operator_expected,
            r == (old(self).pos + old(self).width < old(self).input@.len() && in_class(
                cl,
                old(self).input@[old(self).pos + old(self).width],
            )),
            r ==> final(self).width == old(self).width + 1 && final(self).buffer@ == old(
                self,
            ).buffer@.push(old(self).input@[old(self).pos + old(self).width]),
            !r ==> final(self).width == old(self).width && final(self).buffer@ == old(
                self,
            ).buffer@,
    {
        let n = self.input.len();
        let cursor = self.pos + self.width;
        if cursor < n {
            let ch = self.input[cursor];
            if class_matches(cl, ch) {
                push_char(&mut self.buffer, ch);
                self.width = self.width + 1;
                return true;
            }
        }
        false
    }

    /// Consume the maximal run of class-`cl` characters into the token
    /// under construction.
    fn accept_run(&mut self, cl: CharClass)
        requires
            old(self).pos + old(self).width <= old(self).input@.len(),
        ensures
            final(self).input@ == old(self).input@,
            final(self).pos == old(self).pos,
            final(self).operator_expected == old(self).operator_expected,
            final(self).pos + final(self).width == run_end(
                old(self).input@,
                old(self).pos + old(self).width,
                cl,
            ),
            final(self).buffer@ == old(self).buffer@ + old(self).input@.subrange(
                old(self).pos + old(self).width,
                final(self).pos + final(self).width,
            ),
    {
        proof {
            lemma_run_end_bounds(self.input@, self.pos + self.width, cl);
        }
        loop
            invariant
                self.input@ == old(self).input@,
                self.pos == old(self).pos,
                self.operator_expected == old(self).operator_expected,
                old(self).pos + old(self).width <= self.pos + self.width <= self.input@.len(),
                run_end(self.input@, self.pos + self.width, cl) == run_end(
                    self.input@,
                    old(self).pos + old(self).width,
                    cl,
                ),
                self.buffer@ == old(self).buffer@ + self.input@.subrange(
                    old(self).pos + old(self).width,
                    self.pos + self.width,
                ),
            ensures
                self.input@ == old(self).input@,
                self.pos == old(self).pos,
                self.operator_expected == old(self).operator_expected,
                self.pos + self.width == run_end(
                    self.input@,
                    old(self).pos + old(self).width,
                    cl,
                ),
                self.buffer@ == old(self).buffer@ + self.input@.subrange(
                    old(self).pos + old(self).width,
                    self.pos + self.width,
                ),
            decreases self.input@.len() - (self.pos + self.width),
        {
            let ghost pre = self.pos + self.width;
            if !self.accept(cl) {
                break;
            }
            proof {
                let start = old(self).pos + old(self).width;
                assert(self.buffer@ =~= old(self).buffer@ + self.input@.subrange(start, pre + 1));
            }
        }
    }

    /// Scan a numeric literal at the cursor: an optional minus sign, a
    /// maximal run of digits, an optional `.` with a maximal run of digits,
    /// and an optional `e`/`E` with a maximal run of digits, whose presence
    /// switches the token from `Decimal` to `Exp`. The token carries the
    /// consumed text verbatim.
    fn lex_decimal(&mut self) -> (t: Option<Token>)
        requires
            old(self).width == 0,
            old(self).buffer@.len() == 0,
            old(self).pos <= old(self).input@.len(),
        ensures
            final(self).wf(),
            final(self).input@ == old(self).input@,
            final(self)@.pos == number_end(old(self).input@, old(self).pos as int),
            final(self)@.operator_expected == true,
            opt_token_view(t) == Some(number_token(old(self).input@, old(self).pos as int)),
    {
        let ghost s = self.input@;
        let ghost i = self.pos as int;
        proof {
            lemma_number_stages(s, i);
        }
        self.accept(CharClass::Dash);
        proof {
            assert(self.pos + self.width == sign_end(s, i));
            assert(self.buffer@ =~= s.subrange(i, sign_end(s, i)));
        }
        self.accept_run(CharClass::Digit);
        proof {
            assert(self.pos + self.width == int_end(s, i));
            assert(self.buffer@ =~= s.subrange(i, int_end(s, i)));
        }
        if self.accept(CharClass::Dot) {
            proof {
                lemma_run_end_bounds(s, int_end(s, i) + 1, CharClass::Digit);
                assert(self.buffer@ =~= s.subrange(i, int_end(s, i) + 1));
            }
            self.accept_run(CharClass::Digit);
        }
        proof {
            assert(self.pos + self.width == frac_end(s, i));
            assert(self.buffer@ =~= s.subrange(i, frac_end(s, i)));
        }
        let mut is_exp = false;
        if self.accept(CharClass::ExpMarker) {
            proof {
                lemma_run_end_bounds(s, frac_end(s, i) + 1, CharClass::Digit);
                assert(self.buffer@ =~= s.subrange(i, frac_end(s, i) + 1));
            }
            self.accept_run(CharClass::Digit);
            is_exp = true;
        }
        proof {
            assert(is_exp == has_exp_marker(s, i));
            assert(self.pos + self.width == number_end(s, i));
            assert(self.buffer@ =~= s.subrange(i, number_end(s, i)));
        }
        let n = self.input.len();
        proof {
            assert(self.pos + self.width <= n);
        }
        self.pos = self.pos + self.width;
        self.width = 0;
        self.operator_expected = true;
        if is_exp {
            Some(Token::Exp(self.buffer.clone()))
        } else {
            Some(Token::Decimal(self.buffer.clone()))
        }
    }

    /// Scan an identifier at the cursor: the maximal run of alphabetic,
    /// digit or underscore characters, carried verbatim.
    fn lex_ident(&mut self) -> (t: Option<Token>)
        requires
            old(self).width == 0,
            old(self).buffer@.len() == 0,
            old(self).pos <= old(self).input@.len(),
        ensures
            final(self).wf(),
            final(self).input@ == old(self).input@,
            final(self)@.pos == ident_end(old(self).input@, old(self).pos as int),
            final(self)@.operator_expected == true,
            opt_token_view(t) == Some(
                SpecToken::Ident(
                    old(self).input@.subrange(
                        old(self).pos as int,
                        ident_end(old(self).input@, old(self).pos as int),
                    ),
                ),
            ),
    {
        let ghost s = self.input@;
        let ghost i = self.pos as int;
        self.accept_run(CharClass::IdentChar);
        proof {
            lemma_run_end_bounds(s, i, CharClass::IdentChar);
            assert(self.buffer@ =~= s.subrange(i, ident_end(s, i)));
        }
        let n = self.input.len();
        proof {
            assert(self.pos + self.width <= n);
        }
        self.pos = self.pos + self.width;
        self.width = 0;
        self.operator_expected = true;
        Some(Token::Ident(self.buffer.clone()))
    }

    /// Produce the next token, or nothing once the source is exhausted.
    /// The behaviour is exactly one production step of the abstract model.
    pub fn next(&mut self) -> (t: Option<Token>)
        requires
            old(self).wf(),
        ensures
            final(self).wf(),
            final(self)@ == step(old(self)@).state,
            opt_token_view(t) == step(old(self)@).token,
    {
        self.buffer = String::new();
        let ghost s = self.input@;
        let ghost p0 = self.pos as int;
        // Skip whitespace.
        loop
            invariant
                self.input@ == s,
                self.width == 0,
                self.buffer@.len() == 0,
                self.operator_expected == old(self).operator_expected,
                p0 <= self.pos <= self.input@.len(),
                run_end(s, p0, CharClass::Whitespace) == run_end(
                    s,
                    self.pos as int,
                    CharClass::Whitespace,
                ),
            ensures
                self.input@ == s,
                self.width == 0,
                self.buffer@.len() == 0,
                self.operator_expected == old(self).operator_expected,
                self.pos as int == run_end(s, p0, CharClass::Whitespace),
            decreases self.input@.len() - self.pos,
        {
            if self.pos < self.input.len() {
                let c = self.input[self.pos];
                if char_is_whitespace(c) {
                    self.pos = self.pos + 1;
                } else {
                    break;
                }
            } else {
                break;
            }
        }
        let ghost i = self.pos as int;
        if self.pos == self.input.len() {
            return None;
        }
        let c = self.input[self.pos];
        if c == '(' {
            self.pos = self.pos + 1;
            self.operator_expected = false;
            return Some(Token::LeftParen);
        }
        if c == ')' {
            self.pos = self.pos + 1;
            self.operator_expected = true;
            return Some(Token::RightParen);
        }
        if c == '+' {
            self.pos = self.pos + 1;
            self.operator_expected = false;
            return Some(Token::Operator(Op::Plus));
        }
        if c == '-' && self.operator_expected {
            self.pos = self.pos + 1;
            self.operator_expected = false;
            return Some(Token::Operator(Op::Minus));
        }
        if c == '*' {
            self.pos = self.pos + 1;
            self.operator_expected = false;
            return Some(Token::Operator(Op::Mult));
        }
        if c == '/' {
            self.pos = self.pos + 1;
            self.operator_expected = false;
            return Some(Token::Operator(Op::Div));
        }
        if c == '-' || char_is_digit(c) {
            return self.lex_decimal();
        }
        if c == ':' {
            self.pos = self.pos + 1;
            self.operator_expected = false;
            if self.pos < self.input.len() && self.input[self.pos] == '=' {
                self.pos = self.pos + 1;
                return Some(Token::Assign);
            }
            return Some(Token::Error { pos: self.pos, message: "Unknown symbol".to_owned() });
        }
        if char_is_alphabetic(c) || c == '_' {
            return self.lex_ident();
        }
        let errpos = self.pos;
        self.pos = self.pos + 1;
        self.operator_expected = false;
        Some(Token::Error { pos: errpos, message: "Unknown token".to_owned() })
    }
}

} // verus!
