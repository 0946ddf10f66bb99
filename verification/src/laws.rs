//! Properties of the lexer, proved against the abstract model: literals lex
//! to single tokens carrying their text verbatim, a full drain accounts for
//! every input character, `-` is disambiguated by the operator-expected
//! flag, whitespace-only input yields no token, and stored token texts
//! round-trip through a fresh lexer.

use vstd::prelude::*;
use crate::chars::{
    CharClass, run_end, in_class, is_digit_char, is_alpha_char, is_whitespace_char,
    lemma_run_end_bounds, lemma_run_end_at, lemma_run_end_subrange,
};
use crate::model::{
    LexState, init_state, step, drain_state, sign_end, int_end, frac_end, has_exp_marker,
    number_end, number_token, ident_end, lemma_number_stages, lemma_step_progress,
};
use crate::token::{Op, SpecToken};

verus! {

/// Every character of `s[a..b]` is an ASCII digit.
pub open spec fn all_digits(s: Seq<char>, a: int, b: int) -> bool {
    forall|k: int| a <= k < b ==> is_digit_char(#[trigger] s[k])
}

/// `s[a..b]` is a run of digits, at most once interrupted by a `.`.
pub open spec fn digits_dot_digits(s: Seq<char>, a: int, b: int) -> bool {
    all_digits(s, a, b) || (exists|d: int|
        a <= d < b && #[trigger] s[d] == '.' && all_digits(s, a, d) && all_digits(s, d + 1, b))
}

/// The shape of a decimal literal standing alone: an optional leading minus
/// sign, then digits with at most one decimal point, filling the whole
/// sequence, which begins with a sign or a digit.
pub open spec fn decimal_literal_shape(s: Seq<char>) -> bool {
    s.len() > 0 && (s[0] == '-' || is_digit_char(s[0])) && digits_dot_digits(
        s,
        sign_end(s, 0),
        s.len() as int,
    )
}

/// The shape of an exponent literal standing alone: a decimal literal shape
/// up to an `e`/`E` marker, then digits to the end.
pub open spec fn exp_literal_shape(s: Seq<char>) -> bool {
    s.len() > 0 && (s[0] == '-' || is_digit_char(s[0])) && (exists|m: int|
        sign_end(s, 0) <= m < s.len() && (#[trigger] s[m] == 'e' || s[m] == 'E')
            && digits_dot_digits(s, sign_end(s, 0), m) && all_digits(s, m + 1, s.len() as int))
}

/// A decimal literal without an exponent marker, fed alone to a fresh
/// lexer, produces exactly one token: a `Decimal` carrying the input
/// verbatim; the next production call signals the end of the sequence.
pub proof fn lemma_decimal_literal_single_token(s: Seq<char>)
    requires
        decimal_literal_shape(s),
    ensures
        step(init_state(s)).token == Some(SpecToken::Decimal(s)),
        step(init_state(s)).state.pos == s.len(),
        step(step(init_state(s)).state).token is None,
{
    let a = sign_end(s, 0);
    let n = s.len() as int;
    if all_digits(s, a, n) {
        lemma_run_end_at(s, a, n, CharClass::Digit);
    } else {
        let d = choose|d: int|
            a <= d < n && #[trigger] s[d] == '.' && all_digits(s, a, d) && all_digits(s, d + 1, n);
        lemma_run_end_at(s, a, d, CharClass::Digit);
        lemma_run_end_at(s, d + 1, n, CharClass::Digit);
    }
    assert(number_end(s, 0) == n);
    assert(!has_exp_marker(s, 0));
    assert(s.subrange(0, n) =~= s);
}

/// A numeric literal with an exponent marker, fed alone to a fresh lexer,
/// produces exactly one token: an `Exp` carrying the input verbatim; the
/// next production call signals the end of the sequence.
pub proof fn lemma_exp_literal_single_token(s: Seq<char>)
    requires
        exp_literal_shape(s),
    ensures
        step(init_state(s)).token == Some(SpecToken::Exp(s)),
        step(init_state(s)).state.pos == s.len(),
        step(step(init_state(s)).state).token is None,
{
    let a = sign_end(s, 0);
    let n = s.len() as int;
    let m = choose|m: int|
        a <= m < n && (#[trigger] s[m] == 'e' || s[m] == 'E') && digits_dot_digits(s, a, m)
            && all_digits(s, m + 1, n);
    if all_digits(s, a, m) {
        lemma_run_end_at(s, a, m, CharClass::Digit);
    } else {
        let d = choose|d: int|
            a <= d < m && #[trigger] s[d] == '.' && all_digits(s, a, d) && all_digits(s, d + 1, m);
        lemma_run_end_at(s, a, d, CharClass::Digit);
        lemma_run_end_at(s, d + 1, m, CharClass::Digit);
    }
    assert(frac_end(s, 0) == m);
    assert(has_exp_marker(s, 0));
    lemma_run_end_at(s, m + 1, n, CharClass::Digit);
    assert(number_end(s, 0) == n);
    assert(s.subrange(0, n) =~= s);
}

/// Pulling tokens until the end-of-sequence signal consumes the source
/// exactly: the consumed-character counts of all tokens, together with the
/// skipped whitespace, sum to the length of the input. `pos` accumulates
/// precisely those counts, so after a full drain it equals the length.
pub proof fn lemma_drain_consumes_all(s: LexState)
    requires
        s.wf(),
    ensures
        drain_state(s).input == s.input,
        drain_state(s).pos == s.input.len(),
    decreases s.input.len() - s.pos,
{
    lemma_step_progress(s);
    let r = step(s);
    if r.token is Some {
        lemma_drain_consumes_all(r.state);
    }
}

/// The operator-expected flag disambiguates `-`: in operator position it is
/// the minus operator, consuming one character; in operand position it
/// begins a numeric literal whose text starts with the sign.
pub proof fn lemma_minus_disambiguation(s: LexState)
    requires
        s.wf(),
        run_end(s.input, s.pos, CharClass::Whitespace) < s.input.len(),
        s.input[run_end(s.input, s.pos, CharClass::Whitespace)] == '-',
    ensures
        s.operator_expected ==> step(s).token == Some(SpecToken::Operator(Op::Minus))
            && step(s).state.pos == run_end(s.input, s.pos, CharClass::Whitespace) + 1,
        !s.operator_expected ==> step(s).token == Some(
            number_token(s.input, run_end(s.input, s.pos, CharClass::Whitespace)),
        ),
{
}

/// Empty or whitespace-only input yields no token: the very first
/// production call signals the end of the sequence.
pub proof fn lemma_whitespace_only_no_token(input: Seq<char>)
    requires
        forall|k: int| 0 <= k < input.len() ==> is_whitespace_char(#[trigger] input[k]),
    ensures
        step(init_state(input)).token is None,
{
    assert forall|k: int| 0 <= k < input.len() implies in_class(
        CharClass::Whitespace,
        #[trigger] input[k],
    ) by {}
    lemma_run_end_at(input, 0, input.len() as int, CharClass::Whitespace);
}

/// The scan of the numeric literal at `i`, replayed on the extracted text
/// alone, passes through the same stages, shifted to the start.
proof fn lemma_number_scan_subrange(s: Seq<char>, i: int)
    requires
        0 <= i < s.len(),
        s[i] == '-' || is_digit_char(s[i]),
    ensures
        ({
            let j = number_end(s, i);
            let t = s.subrange(i, j);
            sign_end(t, 0) == sign_end(s, i) - i && int_end(t, 0) == int_end(s, i) - i && frac_end(
                t,
                0,
            ) == frac_end(s, i) - i && has_exp_marker(t, 0) == has_exp_marker(s, i) && number_end(
                t,
                0,
            ) == j - i
        }),
{
    lemma_number_stages(s, i);
    let a = sign_end(s, i);
    let b = int_end(s, i);
    let f = frac_end(s, i);
    let j = number_end(s, i);
    let t = s.subrange(i, j);
    assert(t[0] == s[i]);
    assert(sign_end(t, 0) == a - i);
    lemma_run_end_subrange(s, i, j, a, CharClass::Digit);
    assert(int_end(t, 0) == b - i);
    if b < s.len() && s[b] == '.' {
        lemma_run_end_bounds(s, b + 1, CharClass::Digit);
        assert(b < j);
        assert(t[b - i] == s[b]);
        lemma_run_end_subrange(s, i, j, b + 1, CharClass::Digit);
        assert(frac_end(t, 0) == f - i);
    } else {
        if b < j {
            assert(t[b - i] == s[b]);
        }
        assert(frac_end(t, 0) == b - i);
    }
    if has_exp_marker(s, i) {
        lemma_run_end_bounds(s, f + 1, CharClass::Digit);
        assert(f < j);
        assert(t[f - i] == s[f]);
        assert(has_exp_marker(t, 0));
        lemma_run_end_subrange(s, i, j, f + 1, CharClass::Digit);
        assert(number_end(t, 0) == j - i);
    } else {
        assert(j == f);
        assert(!has_exp_marker(t, 0));
        assert(number_end(t, 0) == j - i);
    }
}

/// Feeding the text of the numeric literal at `i` to a fresh lexer
/// reproduces the very token the literal produced.
proof fn lemma_number_round_trip(s: Seq<char>, i: int)
    requires
        0 <= i < s.len(),
        s[i] == '-' || is_digit_char(s[i]),
    ensures
        step(init_state(s.subrange(i, number_end(s, i)))).token == Some(number_token(s, i)),
{
    lemma_number_stages(s, i);
    lemma_number_scan_subrange(s, i);
    let j = number_end(s, i);
    let t = s.subrange(i, j);
    assert(t[0] == s[i]);
    assert(!in_class(CharClass::Whitespace, t[0]));
    assert(run_end(t, 0, CharClass::Whitespace) == 0);
    assert(t.subrange(0, t.len() as int) =~= t);
}

/// Feeding the text of the identifier at `i` to a fresh lexer reproduces
/// the very `Ident` token the identifier produced.
proof fn lemma_ident_round_trip(s: Seq<char>, i: int)
    requires
        0 <= i < s.len(),
        is_alpha_char(s[i]) || s[i] == '_',
    ensures
        step(init_state(s.subrange(i, ident_end(s, i)))).token == Some(
            SpecToken::Ident(s.subrange(i, ident_end(s, i))),
        ),
{
    lemma_run_end_bounds(s, i, CharClass::IdentChar);
    assert(in_class(CharClass::IdentChar, s[i]));
    let j = ident_end(s, i);
    assert(i < j);
    let t = s.subrange(i, j);
    assert(t[0] == s[i]);
    assert(!in_class(CharClass::Whitespace, t[0]));
    assert(run_end(t, 0, CharClass::Whitespace) == 0);
    lemma_run_end_subrange(s, i, j, i, CharClass::IdentChar);
    assert(ident_end(t, 0) == t.len());
    assert(t.subrange(0, t.len() as int) =~= t);
}

/// Round trip: whenever a production step emits a `Decimal`, `Exp` or
/// `Ident` token, feeding the token's stored text alone into a fresh lexer
/// reproduces a token of the same variant with the same text.
pub proof fn lemma_token_text_round_trip(s: LexState)
    requires
        s.wf(),
    ensures
        step(s).token matches Some(SpecToken::Decimal(text)) ==> step(init_state(text)).token
            == Some(SpecToken::Decimal(text)),
        step(s).token matches Some(SpecToken::Exp(text)) ==> step(init_state(text)).token == Some(
            SpecToken::Exp(text),
        ),
        step(s).token matches Some(SpecToken::Ident(text)) ==> step(init_state(text)).token
            == Some(SpecToken::Ident(text)),
{
    lemma_run_end_bounds(s.input, s.pos, CharClass::Whitespace);
    let i = run_end(s.input, s.pos, CharClass::Whitespace);
    if i < s.input.len() {
        let c = s.input[i];
        if c == '-' || is_digit_char(c) {
            if !(c == '-' && s.operator_expected) {
                lemma_number_round_trip(s.input, i);
            }
        } else if is_alpha_char(c) || c == '_' {
            lemma_ident_round_trip(s.input, i);
        }
    }
}

} // verus!
