//! Character classification, and maximal runs of a class within a sequence.

use vstd::prelude::*;

verus! {

/// The Unicode `White_Space` code points: the characters the lexer skips
/// between tokens.
pub open spec fn is_whitespace_char(c: char) -> bool {
    let u = c as u32;
    u == 0x09 || u == 0x0a || u == 0x0b || u == 0x0c || u == 0x0d || u == 0x20 || u == 0x85
        || u == 0xa0 || u == 0x1680 || (0x2000 <= u && u <= 0x200a) || u == 0x2028 || u == 0x2029
        || u == 0x202f || u == 0x205f || u == 0x3000
}

/// Decides `is_whitespace_char`.
pub fn char_is_whitespace(c: char) -> (r: bool)
    ensures
        r == is_whitespace_char(c),
{
    let u = c as u32;
    u == 0x09 || u == 0x0a || u == 0x0b || u == 0x0c || u == 0x0d || u == 0x20 || u == 0x85
        || u == 0xa0 || u == 0x1680 || (0x2000 <= u && u <= 0x200a) || u == 0x2028 || u == 0x2029
        || u == 0x202f || u == 0x205f || u == 0x3000
}

/// An ASCII decimal digit.
pub open spec fn is_digit_char(c: char) -> bool {
    0x30 <= c as u32 && c as u32 <= 0x39
}

/// Decides `is_digit_char`.
pub fn char_is_digit(c: char) -> (r: bool)
    ensures
        r == is_digit_char(c),
{
    let u = c as u32;
    0x30 <= u && u <= 0x39
}

/// The characters the token dispatch recognizes before it considers an
/// identifier: the parentheses, the four operator characters, the colon,
/// and the digits.
pub open spec fn is_reserved_char(c: char) -> bool {
    let u = c as u32;
    u == 0x28 || u == 0x29 || u == 0x2a || u == 0x2b || u == 0x2d || u == 0x2f || u == 0x3a
        || is_digit_char(c)
}

/// What `char::is_alphabetic` returns for a character.
pub uninterp spec fn unicode_alphabetic(c: char) -> bool;

/// An alphabetic character. A character with the Unicode `Alphabetic`
/// property is never a `White_Space` character, an ASCII digit, or one of
/// the ASCII punctuation characters the lexer dispatches on, so the three
/// conjuncts below single out exactly the alphabetic characters.
pub open spec fn is_alpha_char(c: char) -> bool {
    unicode_alphabetic(c) && !is_whitespace_char(c) && !is_reserved_char(c)
}

/// Relies on `char::is_alphabetic`: whether the character has the Unicode
/// `Alphabetic` property. No `Alphabetic` code point is a `White_Space`
/// code point, an ASCII digit, or ASCII punctuation, so the result equals
/// `is_alpha_char(c)`.
#[verifier::external_body]
pub(crate) fn char_is_alphabetic(c: char) -> (r: bool)
    ensures
        r == is_alpha_char(c),
        r ==> unicode_alphabetic(c),
{
    c.is_alphabetic()
}

/// The classes of characters the scanning routines accept.
#[derive(Clone, Copy, PartialEq, Eq, Structural)]
pub enum CharClass {
    Whitespace,
    Digit,
    Dash,
    Dot,
    ExpMarker,
    IdentChar,
}

/// Membership of a character in a class.
pub open spec fn in_class(cl: CharClass, c: char) -> bool {
    match cl {
        CharClass::Whitespace => is_whitespace_char(c),
        CharClass::Digit => is_digit_char(c),
        CharClass::Dash => c == '-',
        CharClass::Dot => c == '.',
        CharClass::ExpMarker => c == 'e' || c == 'E',
        CharClass::IdentChar => is_alpha_char(c) || is_digit_char(c) || c == '_',
    }
}

/// Decides `in_class`.
pub(crate) fn class_matches(cl: CharClass, c: char) -> (r: bool)
    ensures
        r == in_class(cl, c),
{
    match cl {
        CharClass::Whitespace => char_is_whitespace(c),
        CharClass::Digit => char_is_digit(c),
        CharClass::Dash => c == '-',
        CharClass::Dot => c == '.',
        CharClass::ExpMarker => c == 'e' || c == 'E',
        CharClass::IdentChar => char_is_alphabetic(c) || char_is_digit(c) || c == '_',
    }
}

/// The index just past the maximal run of class-`cl` characters that starts
/// at index `i` of `s`.
pub open spec fn run_end(s: Seq<char>, i: int, cl: CharClass) -> int
    decreases s.len() - i,
{
    if i < s.len() && in_class(cl, s[i]) {
        run_end(s, i + 1, cl)
    } else {
        i
    }
}

/// A maximal run lies within the sequence, all its characters belong to the
/// class, and it ends only at the end of the sequence or before a character
/// outside the class.
pub proof fn lemma_run_end_bounds(s: Seq<char>, i: int, cl: CharClass)
    requires
        0 <= i <= s.len(),
    ensures
        i <= run_end(s, i, cl) <= s.len(),
        forall|k: int| i <= k < run_end(s, i, cl) ==> in_class(cl, #[trigger] s[k]),
        run_end(s, i, cl) == s.len() || !in_class(cl, s[run_end(s, i, cl)]),
    decreases s.len() - i,
{
    if i < s.len() && in_class(cl, s[i]) {
        lemma_run_end_bounds(s, i + 1, cl);
    }
}

/// Conversely, an in-class stretch that ends at the end of the sequence or
/// before an out-of-class character is the maximal run.
pub proof fn lemma_run_end_at(s: Seq<char>, i: int, j: int, cl: CharClass)
    requires
        0 <= i <= j <= s.len(),
        forall|k: int| i <= k < j ==> in_class(cl, #[trigger] s[k]),
        j == s.len() || !in_class(cl, s[j]),
    ensures
        run_end(s, i, cl) == j,
    decreases j - i,
{
    if i < j {
        lemma_run_end_at(s, i + 1, j, cl);
    }
}

/// A maximal run that stays within `s[a..b]` is also the maximal run of the
/// extracted subsequence, shifted by `a`.
pub proof fn lemma_run_end_subrange(s: Seq<char>, a: int, b: int, i: int, cl: CharClass)
    requires
        0 <= a <= i <= b <= s.len(),
        run_end(s, i, cl) <= b,
    ensures
        run_end(s.subrange(a, b), i - a, cl) == run_end(s, i, cl) - a,
{
    let j = run_end(s, i, cl);
    lemma_run_end_bounds(s, i, cl);
    let t = s.subrange(a, b);
    assert forall|k: int| i - a <= k < j - a implies in_class(cl, #[trigger] t[k]) by {
        assert(t[k] == s[a + k]);
    }
    if j < b {
        assert(t[j - a] == s[j]);
    }
    lemma_run_end_at(t, i - a, j - a, cl);
}

} // verus!
