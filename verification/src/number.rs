//! The texts that read as numbers, and the text of an integer.

use crate::text::{
    chars_of, decimal, has_at_ignoring_case, holds_at_ignoring_case, is_ascii_digit,
    lemma_run_end_is, push_decimal, run_end, scan, string_of, CharClass,
};
use vstd::prelude::*;

verus! {

/// 1 where the text from `at` on starts with a sign, else 0.
pub open spec fn sign_len(s: Seq<char>, at: int) -> int {
    if 0 <= at < s.len() && (s[at] == '+' || s[at] == '-') {
        1
    } else {
        0
    }
}

/// Whether the text from `at` on is `p`, in upper or lower case, and
/// nothing more.
pub open spec fn is_word_at(s: Seq<char>, at: int, p: Seq<char>) -> bool {
    has_at_ignoring_case(s, at, p) && at + p.len() == s.len()
}

/// Whether the text from `at` on is one of the words for the numbers that no
/// digits write: `inf`, `infinity`, `nan`, in upper or lower case.
pub open spec fn is_special_number(s: Seq<char>, at: int) -> bool {
    is_word_at(s, at, "inf"@) || is_word_at(s, at, "infinity"@) || is_word_at(s, at, "nan"@)
}

/// Whether the text from `at` on is an exponent and nothing more: `e` or
/// `E`, a sign or none, and one or more digits.
pub open spec fn is_exponent(s: Seq<char>, at: int) -> bool {
    let g = at + 1 + sign_len(s, at + 1);
    let h = run_end(s, g, CharClass::Digit);
    0 <= at < s.len() && (s[at] == 'e' || s[at] == 'E') && g < h && h == s.len()
}

/// Whether the text from `at` on is a number in digits: digits, with a `.`
/// before, among or after them or without one, at least one digit in all,
/// and then an exponent or nothing.
pub open spec fn is_decimal_number(s: Seq<char>, at: int) -> bool {
    let i = run_end(s, at, CharClass::Digit);
    let f0 = if i < s.len() && s[i] == '.' {
        i + 1
    } else {
        i
    };
    let f = run_end(s, f0, CharClass::Digit);
    (at < i || f0 < f) && (f == s.len() || is_exponent(s, f))
}

/// Whether `s` reads as a number: a sign or none, and then a number in
/// digits or one of the words for a number. White space makes it none.
pub open spec fn is_number_text(s: Seq<char>) -> bool {
    let at = sign_len(s, 0);
    is_special_number(s, at) || is_decimal_number(s, at)
}

/// The integer `n` in decimal digits, after `-` where it is negative.
pub open spec fn signed_decimal(n: int) -> Seq<char> {
    if n < 0 {
        seq!['-'] + decimal((-n) as nat)
    } else {
        decimal(n as nat)
    }
}

fn check_exponent(v: &Vec<char>, at: usize) -> (r: bool)
    requires
        at <= v.len(),
    ensures
        r == is_exponent(v@, at as int),
{
    if at >= v.len() || !(v[at] == 'e' || v[at] == 'E') {
        return false;
    }
    let signed = at + 1 < v.len() && (v[at + 1] == '+' || v[at + 1] == '-');
    let g = if signed {
        at + 2
    } else {
        at + 1
    };
    let h = scan(v, g, CharClass::Digit);
    g < h && h == v.len()
}

fn check_decimal_number(v: &Vec<char>, at: usize) -> (r: bool)
    requires
        at <= v.len(),
    ensures
        r == is_decimal_number(v@, at as int),
{
    let i = scan(v, at, CharClass::Digit);
    let f0 = if i < v.len() && v[i] == '.' {
        i + 1
    } else {
        i
    };
    let f = scan(v, f0, CharClass::Digit);
    (at < i || f0 < f) && (f == v.len() || check_exponent(v, f))
}

fn check_word(v: &Vec<char>, at: usize, p: &str) -> (r: bool)
    requires
        at <= v.len(),
    ensures
        r == is_word_at(v@, at as int, p@),
{
    holds_at_ignoring_case(v, at, p) && v.len() - at == p.unicode_len()
}

/// Whether the characters `v` read as a number.
pub fn chars_read_as_number(v: &Vec<char>) -> (r: bool)
    ensures
        r == is_number_text(v@),
{
    let at: usize = if v.len() > 0 && (v[0] == '+' || v[0] == '-') {
        1
    } else {
        0
    };
    check_word(v, at, "inf") || check_word(v, at, "infinity") || check_word(v, at, "nan")
        || check_decimal_number(v, at)
}

/// Whether `s` reads as a number.
pub fn reads_as_number(s: &str) -> (r: bool)
    ensures
        r == is_number_text(s@),
{
    chars_read_as_number(&chars_of(s))
}

/// The integer `n` in decimal digits, after `-` where it is negative.
pub fn integer_text(n: i64) -> (r: String)
    ensures
        r@ == signed_decimal(n as int),
{
    let mut out: Vec<char> = Vec::new();
    if n < 0 {
        out.push('-');
        let magnitude: u64 = ((-(n + 1)) as u64) + 1;
        push_decimal(&mut out, magnitude);
    } else {
        push_decimal(&mut out, n as u64);
    }
    string_of(&out)
}

/// The digits of a number are digits, and there is at least one.
pub proof fn lemma_decimal_digits(n: nat)
    ensures
        decimal(n).len() > 0,
        forall|i: int| 0 <= i < decimal(n).len() ==> is_ascii_digit(#[trigger] decimal(n)[i]),
    decreases n,
{
    if n >= 10 {
        lemma_decimal_digits(n / 10);
    }
}

/// The text of every integer reads as a number.
pub proof fn lemma_integer_reads_as_number(n: int)
    ensures
        is_number_text(signed_decimal(n)),
{
    let s = signed_decimal(n);
    let m: nat = if n < 0 {
        (-n) as nat
    } else {
        n as nat
    };
    lemma_decimal_digits(m);
    let at = sign_len(s, 0);
    if n < 0 {
        assert(s[0] == '-');
        assert forall|i: int| 1 <= i < s.len() implies CharClass::Digit.has(#[trigger] s[i]) by {
            assert(s[i] == decimal(m)[i - 1]);
        }
    } else {
        assert(is_ascii_digit(decimal(m)[0]));
        assert forall|i: int| 0 <= i < s.len() implies CharClass::Digit.has(#[trigger] s[i]) by {
            assert(s[i] == decimal(m)[i]);
        }
    }
    lemma_run_end_is(s, at, s.len() as int, CharClass::Digit);
    lemma_run_end_is(s, s.len() as int, s.len() as int, CharClass::Digit);
    assert(is_decimal_number(s, at));
}

} // verus!
