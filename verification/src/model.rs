//! The lexer's abstract state and the specification of one token
//! production step.

use vstd::prelude::*;
use crate::chars::{CharClass, run_end, is_digit_char, is_alpha_char, lemma_run_end_bounds};
use crate::token::{Op, SpecToken};

verus! {

/// The lexer's abstract state between two production calls: the whole
/// character source, the count of characters consumed so far (which is also
/// the cursor into the source), and whether the last emitted token may
/// legally be followed by a binary operator.
pub ghost struct LexState {
    pub input: Seq<char>,
    pub pos: int,
    pub operator_expected: bool,
}

impl LexState {
    /// The cursor lies within the source.
    pub open spec fn wf(self) -> bool {
        0 <= self.pos <= self.input.len()
    }
}

/// A fresh lexer over `input`: nothing consumed, an operand expected.
pub open spec fn init_state(input: Seq<char>) -> LexState {
    LexState { input, pos: 0, operator_expected: false }
}

/// What one production call returns, and the state it leaves behind.
pub ghost struct StepResult {
    pub token: Option<SpecToken>,
    pub state: LexState,
}

/// End of the optional leading minus sign of a numeric literal at `i`.
pub open spec fn sign_end(s: Seq<char>, i: int) -> int {
    if i < s.len() && s[i] == '-' {
        i + 1
    } else {
        i
    }
}

/// End of the integer part of a numeric literal at `i`.
pub open spec fn int_end(s: Seq<char>, i: int) -> int {
    run_end(s, sign_end(s, i), CharClass::Digit)
}

/// End of the optional fractional part of a numeric literal at `i`.
pub open spec fn frac_end(s: Seq<char>, i: int) -> int {
    let j = int_end(s, i);
    if j < s.len() && s[j] == '.' {
        run_end(s, j + 1, CharClass::Digit)
    } else {
        j
    }
}

/// Whether the numeric literal at `i` carries an exponent marker.
pub open spec fn has_exp_marker(s: Seq<char>, i: int) -> bool {
    let j = frac_end(s, i);
    j < s.len() && (s[j] == 'e' || s[j] == 'E')
}

/// End of the numeric literal at `i`: sign, digits, optional fraction,
/// optional exponent marker with digits, each run maximal.
pub open spec fn number_end(s: Seq<char>, i: int) -> int {
    if has_exp_marker(s, i) {
        run_end(s, frac_end(s, i) + 1, CharClass::Digit)
    } else {
        frac_end(s, i)
    }
}

/// The token the numeric literal at `i` produces: its text verbatim, tagged
/// `Exp` exactly when an exponent marker was consumed.
pub open spec fn number_token(s: Seq<char>, i: int) -> SpecToken {
    let text = s.subrange(i, number_end(s, i));
    if has_exp_marker(s, i) {
        SpecToken::Exp(text)
    } else {
        SpecToken::Decimal(text)
    }
}

/// End of the identifier at `i`: the maximal run of alphabetic, digit or
/// underscore characters.
pub open spec fn ident_end(s: Seq<char>, i: int) -> int {
    run_end(s, i, CharClass::IdentChar)
}

/// One token production step. Whitespace is skipped first; if that exhausts
/// the source, no token is produced. Otherwise the next character is
/// dispatched: punctuation and operators consume one character (`:=` two);
/// a `-` is the minus operator exactly when an operator is expected, and
/// otherwise begins a numeric literal, as a digit does; an alphabetic
/// character or `_` begins an identifier; a `:` not followed by `=` yields
/// an `Unknown symbol` error one past the colon; anything else yields an
/// `Unknown token` error at the offending character, which is consumed so
/// that production always makes progress. The operator-expected flag comes
/// out true exactly when the emitted token was a closing parenthesis, an
/// identifier or a numeric literal, and false after every other token.
pub open spec fn step(s: LexState) -> StepResult {
    let i = run_end(s.input, s.pos, CharClass::Whitespace);
    if i >= s.input.len() {
        StepResult {
            token: None,
            state: LexState { input: s.input, pos: i, operator_expected: s.operator_expected },
        }
    } else {
        let c = s.input[i];
        if c == '(' {
            StepResult {
                token: Some(SpecToken::LeftParen),
                state: LexState { input: s.input, pos: i + 1, operator_expected: false },
            }
        } else if c == ')' {
            StepResult {
                token: Some(SpecToken::RightParen),
                state: LexState { input: s.input, pos: i + 1, operator_expected: true },
            }
        } else if c == '+' {
            StepResult {
                token: Some(SpecToken::Operator(Op::Plus)),
                state: LexState { input: s.input, pos: i + 1, operator_expected: false },
            }
        } else if c == '-' && s.operator_expected {
            StepResult {
                token: Some(SpecToken::Operator(Op::Minus)),
                state: LexState { input: s.input, pos: i + 1, operator_expected: false },
            }
        } else if c == '*' {
            StepResult {
                token: Some(SpecToken::Operator(Op::Mult)),
                state: LexState { input: s.input, pos: i + 1, operator_expected: false },
            }
        } else if c == '/' {
            StepResult {
                token: Some(SpecToken::Operator(Op::Div)),
                state: LexState { input: s.input, pos: i + 1, operator_expected: false },
            }
        } else if c == '-' || is_digit_char(c) {
            StepResult {
                token: Some(number_token(s.input, i)),
                state: LexState {
                    input: s.input,
                    pos: number_end(s.input, i),
                    operator_expected: true,
                },
            }
        } else if c == ':' {
            if i + 1 < s.input.len() && s.input[i + 1] == '=' {
                StepResult {
                    token: Some(SpecToken::Assign),
                    state: LexState { input: s.input, pos: i + 2, operator_expected: false },
                }
            } else {
                StepResult {
                    token: Some(
                        SpecToken::Error { pos: i + 1, message: "Unknown symbol"@ },
                    ),
                    state: LexState { input: s.input, pos: i + 1, operator_expected: false },
                }
            }
        } else if is_alpha_char(c) || c == '_' {
            StepResult {
                token: Some(SpecToken::Ident(s.input.subrange(i, ident_end(s.input, i)))),
                state: LexState {
                    input: s.input,
                    pos: ident_end(s.input, i),
                    operator_expected: true,
                },
            }
        } else {
            StepResult {
                token: Some(SpecToken::Error { pos: i, message: "Unknown token"@ }),
                state: LexState { input: s.input, pos: i + 1, operator_expected: false },
            }
        }
    }
}

/// The stages of a numeric literal scan are ordered and lie within the
/// source; a scan entered at a sign or digit consumes at least one
/// character.
pub proof fn lemma_number_stages(s: Seq<char>, i: int)
    requires
        0 <= i <= s.len(),
    ensures
        i <= sign_end(s, i) <= int_end(s, i) <= frac_end(s, i) <= number_end(s, i) <= s.len(),
        i < s.len() && (s[i] == '-' || is_digit_char(s[i])) ==> i < number_end(s, i),
{
    lemma_run_end_bounds(s, sign_end(s, i), CharClass::Digit);
    let j = int_end(s, i);
    if j < s.len() && s[j] == '.' {
        lemma_run_end_bounds(s, j + 1, CharClass::Digit);
    }
    let k = frac_end(s, i);
    if k < s.len() && (s[k] == 'e' || s[k] == 'E') {
        lemma_run_end_bounds(s, k + 1, CharClass::Digit);
    }
}

/// A production step leaves the source unchanged and the state well formed;
/// a step that produces a token consumes at least one character, and a step
/// that produces none has consumed the whole source.
pub proof fn lemma_step_progress(s: LexState)
    requires
        s.wf(),
    ensures
        step(s).state.wf(),
        step(s).state.input == s.input,
        s.pos <= step(s).state.pos,
        step(s).token is Some ==> s.pos < step(s).state.pos,
        step(s).token is None ==> step(s).state.pos == s.input.len(),
{
    lemma_run_end_bounds(s.input, s.pos, CharClass::Whitespace);
    let i = run_end(s.input, s.pos, CharClass::Whitespace);
    if i < s.input.len() {
        let c = s.input[i];
        lemma_number_stages(s.input, i);
        lemma_run_end_bounds(s.input, i, CharClass::IdentChar);
    }
}

/// The state left behind once production is repeated until the
/// end-of-sequence signal.
pub open spec fn drain_state(s: LexState) -> LexState
    decreases s.input.len() - s.pos,
    when s.wf()
    via drain_state_decreases
{
    let r = step(s);
    if r.token is None {
        r.state
    } else {
        drain_state(r.state)
    }
}

#[via_fn]
proof fn drain_state_decreases(s: LexState) {
    lemma_step_progress(s);
}

} // verus!
