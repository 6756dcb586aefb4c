//! The patterns behind value-type inference.
//!
//! A raw right-hand-side fragment is classified by an ordered list of
//! patterns; the first that matches decides the type. The two label dialects
//! differ in one point only: whether a single quote counts as a quote
//! character, so every quote-sensitive pattern takes that as a flag.

use vstd::prelude::*;

use crate::chars::{
    all_of_class, check_all_of_class, class_run_end, is_alpha, is_digit, run_end, CharClass,
};

verus! {

/// `c` is a quote character of the dialect: `"` always, `'` only when
/// `single_quotes` holds.
pub open spec fn is_quote(c: char, single_quotes: bool) -> bool {
    c == '"' || (single_quotes && c == '\'')
}

/// Exactly a quoted `TRUE` or `FALSE`; the two quotes may differ.
pub open spec fn bool_pattern(s: Seq<char>, single_quotes: bool) -> bool {
    (s.len() == 6 && is_quote(s[0], single_quotes) && s[1] == 'T' && s[2] == 'R' && s[3] == 'U'
        && s[4] == 'E' && is_quote(s[5], single_quotes)) || (s.len() == 7 && is_quote(
        s[0],
        single_quotes,
    ) && s[1] == 'F' && s[2] == 'A' && s[3] == 'L' && s[4] == 'S' && s[5] == 'E' && is_quote(
        s[6],
        single_quotes,
    ))
}

/// A quote, any characters of the line, a quote.
pub open spec fn string_pattern(s: Seq<char>, single_quotes: bool) -> bool {
    s.len() >= 2 && is_quote(s[0], single_quotes) && is_quote(s[s.len() - 1], single_quotes)
        && all_of_class(s, 1, s.len() - 1, CharClass::NotNewline)
}

/// The whole fragment parenthesized.
pub open spec fn array_pattern(s: Seq<char>) -> bool {
    s.len() >= 2 && s[0] == '(' && s[s.len() - 1] == ')' && all_of_class(
        s,
        1,
        s.len() - 1,
        CharClass::NotNewline,
    )
}

/// An optional run of `-`, digits, a decimal point, a digit.
pub open spec fn float_pattern(s: Seq<char>) -> bool {
    let i = run_end(s, 0, CharClass::Minus);
    let j = run_end(s, i, CharClass::Digit);
    j > i && j + 1 < s.len() && s[j] == '.' && is_digit(s[j + 1])
}

/// `<radix>#<bits>#`: an optional radix run of `1`-`8`, one or more `#`, one
/// or more binary digits, one or more `#` closing the fragment.
pub open spec fn bitmask_pattern(s: Seq<char>) -> bool {
    let a = run_end(s, 0, CharClass::RadixDigit);
    let b = run_end(s, a, CharClass::Hash);
    let c = run_end(s, b, CharClass::BinaryDigit);
    b > a && c > b && c < s.len() && all_of_class(s, c, s.len() as int, CharClass::Hash)
}

/// An optional run of signs, one or more digits, and no letter or `#`
/// glued right after the digits: a flag or a unit stuck to a number is not
/// an integer.
pub open spec fn integer_pattern(s: Seq<char>) -> bool {
    let i = run_end(s, 0, CharClass::PlusOrMinus);
    let j = run_end(s, i, CharClass::Digit);
    j > i && (j >= s.len() || (!is_alpha(s[j]) && s[j] != '#'))
}

/// One or more letters or underscores followed by one or more letters or
/// digits: a bare identifier of at least two characters whose underscores
/// all precede its digits and whose last character is not an underscore.
pub open spec fn flag_pattern(s: Seq<char>) -> bool {
    let m = run_end(s, 0, CharClass::AlphaOrUnderscore);
    let k = if m < s.len() - 1 {
        m
    } else {
        s.len() - 1
    };
    s.len() >= 2 && m >= 1 && all_of_class(s, k, s.len() as int, CharClass::Alphanumeric)
}

/// `s` with its surrounding quote characters removed: a quote at the very
/// front and a quote at the very end are dropped, one each; quotes in the
/// interior stay.
pub open spec fn without_surrounding_quotes(s: Seq<char>, single_quotes: bool) -> Seq<char> {
    let a: int = if s.len() > 0 && is_quote(s[0], single_quotes) {
        1
    } else {
        0
    };
    let b: int = if s.len() > a && is_quote(s[s.len() - 1], single_quotes) {
        s.len() - 1
    } else {
        s.len() as int
    };
    s.subrange(a, b)
}

/// Removes the quote characters surrounding `s`, if any.
pub(crate) fn without_surrounding_quotes_exec(s: &Vec<char>, single_quotes: bool) -> (r: Vec<
    char,
>)
    ensures
        r@ == without_surrounding_quotes(s@, single_quotes),
{
    let a: usize = if s.len() > 0 && quote_exec(s[0], single_quotes) {
        1
    } else {
        0
    };
    let b: usize = if s.len() > a && quote_exec(s[s.len() - 1], single_quotes) {
        s.len() - 1
    } else {
        s.len()
    };
    crate::text::copy_range(s, a, b)
}

pub(crate) fn bool_pattern_exec(s: &Vec<char>, single_quotes: bool) -> (r: bool)
    ensures
        r == bool_pattern(s@, single_quotes),
{
    if s.len() == 6 {
        quote_exec(s[0], single_quotes) && s[1] == 'T' && s[2] == 'R' && s[3] == 'U' && s[4] == 'E'
            && quote_exec(s[5], single_quotes)
    } else if s.len() == 7 {
        quote_exec(s[0], single_quotes) && s[1] == 'F' && s[2] == 'A' && s[3] == 'L' && s[4] == 'S'
            && s[5] == 'E' && quote_exec(s[6], single_quotes)
    } else {
        false
    }
}

fn quote_exec(c: char, single_quotes: bool) -> (r: bool)
    ensures
        r == is_quote(c, single_quotes),
{
    c == '"' || (single_quotes && c == '\'')
}

pub(crate) fn string_pattern_exec(s: &Vec<char>, single_quotes: bool) -> (r: bool)
    ensures
        r == string_pattern(s@, single_quotes),
{
    s.len() >= 2 && quote_exec(s[0], single_quotes) && quote_exec(s[s.len() - 1], single_quotes)
        && check_all_of_class(s, 1, s.len() - 1, CharClass::NotNewline)
}

pub(crate) fn array_pattern_exec(s: &Vec<char>) -> (r: bool)
    ensures
        r == array_pattern(s@),
{
    s.len() >= 2 && s[0] == '(' && s[s.len() - 1] == ')' && check_all_of_class(
        s,
        1,
        s.len() - 1,
        CharClass::NotNewline,
    )
}

pub(crate) fn float_pattern_exec(s: &Vec<char>) -> (r: bool)
    ensures
        r == float_pattern(s@),
{
    let i = class_run_end(s, 0, CharClass::Minus);
    let j = class_run_end(s, i, CharClass::Digit);
    j > i && j < s.len() - 1 && s[j] == '.' && '0' <= s[j + 1] && s[j + 1] <= '9'
}

pub(crate) fn bitmask_pattern_exec(s: &Vec<char>) -> (r: bool)
    ensures
        r == bitmask_pattern(s@),
{
    let a = class_run_end(s, 0, CharClass::RadixDigit);
    let b = class_run_end(s, a, CharClass::Hash);
    let c = class_run_end(s, b, CharClass::BinaryDigit);
    b > a && c > b && c < s.len() && check_all_of_class(s, c, s.len(), CharClass::Hash)
}

pub(crate) fn integer_pattern_exec(s: &Vec<char>) -> (r: bool)
    ensures
        r == integer_pattern(s@),
{
    let i = class_run_end(s, 0, CharClass::PlusOrMinus);
    let j = class_run_end(s, i, CharClass::Digit);
    j > i && (j >= s.len() || (!(('a' <= s[j] && s[j] <= 'z') || ('A' <= s[j] && s[j] <= 'Z'))
        && s[j] != '#'))
}

pub(crate) fn flag_pattern_exec(s: &Vec<char>) -> (r: bool)
    ensures
        r == flag_pattern(s@),
{
    let m = class_run_end(s, 0, CharClass::AlphaOrUnderscore);
    if s.len() < 2 || m < 1 {
        false
    } else {
        let k = if m < s.len() - 1 {
            m
        } else {
            s.len() - 1
        };
        check_all_of_class(s, k, s.len(), CharClass::Alphanumeric)
    }
}

} // verus!
