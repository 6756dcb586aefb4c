//! Character classes and runs over character sequences.
//!
//! The value-type patterns, the scanner's line handling and the label field
//! extraction are all phrased over runs of characters drawn from a fixed set
//! of classes, so the spec vocabulary for those runs lives here.

use vstd::prelude::*;

verus! {

/// A class of characters that one of the text patterns scans over.
#[derive(Clone, Copy)]
pub enum CharClass {
    /// `-`
    Minus,
    /// `+` or `-`
    PlusOrMinus,
    /// `0` through `9`
    Digit,
    /// `1` through `8` (a bitmask radix digit)
    RadixDigit,
    /// `#`
    Hash,
    /// `0` or `1`
    BinaryDigit,
    /// a letter or `_`
    AlphaOrUnderscore,
    /// a letter or a digit
    Alphanumeric,
    /// anything but a line feed
    NotNewline,
    /// a line feed
    Newline,
    /// a space
    Space,
    /// anything but a space
    NotSpace,
    /// a space or a tab (what trimming removes)
    TrimWhitespace,
    /// anything a symbol may contain: not a line terminator and not `=`
    SymbolChar,
    /// anything but `=`
    NotEqualsSign,
    /// anything but `,`
    NotComma,
}

pub open spec fn is_digit(c: char) -> bool {
    '0' <= c && c <= '9'
}

pub open spec fn is_alpha(c: char) -> bool {
    ('a' <= c && c <= 'z') || ('A' <= c && c <= 'Z')
}

pub open spec fn class_matches(k: CharClass, c: char) -> bool {
    match k {
        CharClass::Minus => c == '-',
        CharClass::PlusOrMinus => c == '+' || c == '-',
        CharClass::Digit => is_digit(c),
        CharClass::RadixDigit => '1' <= c && c <= '8',
        CharClass::Hash => c == '#',
        CharClass::BinaryDigit => c == '0' || c == '1',
        CharClass::AlphaOrUnderscore => is_alpha(c) || c == '_',
        CharClass::Alphanumeric => is_alpha(c) || is_digit(c),
        CharClass::NotNewline => c != '\n',
        CharClass::Newline => c == '\n',
        CharClass::Space => c == ' ',
        CharClass::NotSpace => c != ' ',
        CharClass::TrimWhitespace => c == ' ' || c == '\t',
        CharClass::SymbolChar => c != '\n' && c != '\r' && c != '=',
        CharClass::NotEqualsSign => c != '=',
        CharClass::NotComma => c != ',',
    }
}

/// Index just past the run of characters of class `k` that starts at `from`:
/// the first index at or after `from` whose character is not of the class,
/// or the sequence's length when the run reaches the end.
pub open spec fn run_end(s: Seq<char>, from: int, k: CharClass) -> int
    decreases s.len() - from
        when 0 <= from <= s.len()
{
    if from >= s.len() || !class_matches(k, s[from]) {
        from
    } else {
        run_end(s, from + 1, k)
    }
}

/// Every character of `s` in `[from, to)` is of class `k`.
pub open spec fn all_of_class(s: Seq<char>, from: int, to: int, k: CharClass) -> bool {
    forall|i: int| from <= i < to ==> class_matches(k, s[i])
}

pub proof fn lemma_run_end(s: Seq<char>, from: int, k: CharClass)
    requires
        0 <= from <= s.len(),
    ensures
        from <= run_end(s, from, k) <= s.len(),
        all_of_class(s, from, run_end(s, from, k), k),
        run_end(s, from, k) < s.len() ==> !class_matches(k, s[run_end(s, from, k)]),
    decreases s.len() - from,
{
    if from < s.len() && class_matches(k, s[from]) {
        lemma_run_end(s, from + 1, k);
    }
}

/// The run starting at `from` passes through any index of the run's interior.
pub proof fn lemma_run_end_mid(s: Seq<char>, from: int, mid: int, k: CharClass)
    requires
        0 <= from <= mid <= s.len(),
        all_of_class(s, from, mid, k),
    ensures
        run_end(s, from, k) == run_end(s, mid, k),
    decreases mid - from,
{
    if from < mid {
        lemma_run_end_mid(s, from + 1, mid, k);
    }
}

pub(crate) fn class_matches_exec(k: CharClass, c: char) -> (r: bool)
    ensures
        r == class_matches(k, c),
{
    match k {
        CharClass::Minus => c == '-',
        CharClass::PlusOrMinus => c == '+' || c == '-',
        CharClass::Digit => '0' <= c && c <= '9',
        CharClass::RadixDigit => '1' <= c && c <= '8',
        CharClass::Hash => c == '#',
        CharClass::BinaryDigit => c == '0' || c == '1',
        CharClass::AlphaOrUnderscore => ('a' <= c && c <= 'z') || ('A' <= c && c <= 'Z') || c
            == '_',
        CharClass::Alphanumeric => ('a' <= c && c <= 'z') || ('A' <= c && c <= 'Z') || ('0' <= c
            && c <= '9'),
        CharClass::NotNewline => c != '\n',
        CharClass::Newline => c == '\n',
        CharClass::Space => c == ' ',
        CharClass::NotSpace => c != ' ',
        CharClass::TrimWhitespace => c == ' ' || c == '\t',
        CharClass::SymbolChar => c != '\n' && c != '\r' && c != '=',
        CharClass::NotEqualsSign => c != '=',
        CharClass::NotComma => c != ',',
    }
}

/// Walks to the end of the run of class `k` that starts at `from`.
pub(crate) fn class_run_end(s: &Vec<char>, from: usize, k: CharClass) -> (r: usize)
    requires
        from <= s@.len(),
    ensures
        r == run_end(s@, from as int, k),
        from <= r <= s@.len(),
{
    let mut i = from;
    loop
        invariant
            from <= i <= s@.len(),
            run_end(s@, from as int, k) == run_end(s@, i as int, k),
        ensures
            from <= i <= s@.len(),
            run_end(s@, from as int, k) == i,
        decreases s@.len() - i,
    {
        if i < s.len() {
            if class_matches_exec(k, s[i]) {
                i = i + 1;
            } else {
                break ;
            }
        } else {
            break ;
        }
    }
    i
}

/// Decides whether every character in `[from, to)` is of class `k`.
pub(crate) fn check_all_of_class(s: &Vec<char>, from: usize, to: usize, k: CharClass) -> (r: bool)
    requires
        from <= to <= s@.len(),
    ensures
        r == all_of_class(s@, from as int, to as int, k),
{
    let mut i = from;
    loop
        invariant
            from <= i <= to <= s@.len(),
            all_of_class(s@, from as int, i as int, k),
        ensures
            i == to,
            all_of_class(s@, from as int, to as int, k),
        decreases to - i,
    {
        if i < to {
            if class_matches_exec(k, s[i]) {
                i = i + 1;
            } else {
                assert(!class_matches(k, s@[i as int]));
                return false;
            }
        } else {
            break ;
        }
    }
    true
}

} // verus!
