//! Verified parsing of integer and boolean text, with the exact grammar of
//! the standard library's `FromStr` impls: an optional single sign (`-` only
//! for signed types), then one or more decimal digits, nothing else, and the
//! value within the type's range.

use vstd::prelude::*;

use crate::chars::is_digit;

verus! {

/// The value of a digit string, most significant digit first. Only
/// meaningful when every character is a digit.
pub open spec fn digits_value(s: Seq<char>) -> int
    decreases s.len(),
{
    if s.len() == 0 {
        0
    } else {
        digits_value(s.drop_last()) * 10 + (s.last() as u32 - '0' as u32)
    }
}

/// `s` starts with a sign character.
pub open spec fn int_has_sign(s: Seq<char>) -> bool {
    s.len() > 0 && (s[0] == '+' || s[0] == '-')
}

/// `s` starts with a minus sign.
pub open spec fn int_negative(s: Seq<char>) -> bool {
    s.len() > 0 && s[0] == '-'
}

/// The digit part of `s`: everything after the sign, if any.
pub open spec fn int_digits(s: Seq<char>) -> Seq<char> {
    if int_has_sign(s) {
        s.drop_first()
    } else {
        s
    }
}

/// `s` is integer text: an optional sign and at least one digit, nothing
/// else.
pub open spec fn int_wellformed(s: Seq<char>) -> bool {
    let d = int_digits(s);
    d.len() >= 1 && forall|i: int| 0 <= i < d.len() ==> is_digit(d[i])
}

/// The magnitude of the integer that `s` spells.
pub open spec fn int_magnitude(s: Seq<char>) -> int {
    digits_value(int_digits(s))
}

/// The signed value that `s` spells.
pub open spec fn int_value(s: Seq<char>) -> int {
    if int_negative(s) {
        -int_magnitude(s)
    } else {
        int_magnitude(s)
    }
}

/// What parsing `s` as an unsigned value bounded by `max` yields: the
/// magnitude, if `s` is sign-and-digits without a minus and the value fits.
pub open spec fn uint_from_text(s: Seq<char>, max: int) -> Option<int> {
    if int_wellformed(s) && !int_negative(s) && int_magnitude(s) <= max {
        Some(int_magnitude(s))
    } else {
        None
    }
}

/// What parsing `s` as a signed value in `[min, max]` yields.
pub open spec fn sint_from_text(s: Seq<char>, min: int, max: int) -> Option<int> {
    if int_wellformed(s) && min <= int_value(s) <= max {
        Some(int_value(s))
    } else {
        None
    }
}

/// What parsing `s` as a boolean yields: exactly `true` or `false`.
pub open spec fn bool_from_text(s: Seq<char>) -> Option<bool> {
    if s == seq!['t', 'r', 'u', 'e'] {
        Some(true)
    } else if s == seq!['f', 'a', 'l', 's', 'e'] {
        Some(false)
    } else {
        None
    }
}

proof fn lemma_digits_value_nonneg(s: Seq<char>)
    requires
        forall|i: int| 0 <= i < s.len() ==> is_digit(s[i]),
    ensures
        digits_value(s) >= 0,
    decreases s.len(),
{
    if s.len() > 0 {
        lemma_digits_value_nonneg(s.drop_last());
    }
}

proof fn lemma_digits_value_prefix(s: Seq<char>, i: int, j: int)
    requires
        forall|k: int| 0 <= k < s.len() ==> is_digit(s[k]),
        0 <= i <= j <= s.len(),
    ensures
        digits_value(s.subrange(0, i)) <= digits_value(s.subrange(0, j)),
    decreases j - i,
{
    if i < j {
        lemma_digits_value_prefix(s, i, j - 1);
        let a = s.subrange(0, j - 1);
        let b = s.subrange(0, j);
        assert(b.drop_last() =~= a);
        lemma_digits_value_nonneg(a);
    }
}

/// Parses `s[start..]` as a run of decimal digits accumulated into a `u64`.
fn parse_digits_u64(s: &Vec<char>, start: usize) -> (r: Option<u64>)
    requires
        start <= s@.len(),
    ensures
        ({
            let d = s@.subrange(start as int, s@.len() as int);
            match r {
                Some(v) => {
                    &&& d.len() >= 1
                    &&& forall|i: int| 0 <= i < d.len() ==> is_digit(d[i])
                    &&& v == digits_value(d)
                },
                None => {
                    ||| d.len() == 0
                    ||| exists|i: int| 0 <= i < d.len() && !is_digit(d[i])
                    ||| (forall|i: int| 0 <= i < d.len() ==> is_digit(d[i])) && digits_value(d)
                        > u64::MAX
                },
            }
        }),
{
    let ghost d = s@.subrange(start as int, s@.len() as int);
    if start >= s.len() {
        return None;
    }
    let mut acc: u64 = 0;
    let mut i = start;
    loop
        invariant
            start <= i <= s@.len(),
            d == s@.subrange(start as int, s@.len() as int),
            forall|k: int| 0 <= k < i - start ==> is_digit(d[k]),
            acc == digits_value(d.subrange(0, i - start)),
        ensures
            i == s@.len(),
            forall|k: int| 0 <= k < d.len() ==> is_digit(d[k]),
            acc == digits_value(d),
        decreases s@.len() - i,
    {
        if i < s.len() {
            let c = s[i];
            if c < '0' || c > '9' {
                proof {
                    assert(!is_digit(d[i - start]));
                }
                return None;
            }
            let digit: u64 = (c as u32 - '0' as u32) as u64;
            let step = match acc.checked_mul(10) {
                Some(t) => t.checked_add(digit),
                None => None,
            };
            proof {
                let m = i - start;
                assert(d.subrange(0, m + 1).drop_last() =~= d.subrange(0, m));
                assert(d.subrange(0, m + 1).last() == d[m]);
                assert(digits_value(d.subrange(0, m + 1)) == acc * 10 + digit);
            }
            match step {
                Some(v) => {
                    acc = v;
                    i = i + 1;
                },
                None => {
                    proof {
                        let m = i - start;
                        if forall|k: int| 0 <= k < d.len() ==> is_digit(d[k]) {
                            lemma_digits_value_prefix(d, m + 1, d.len() as int);
                            assert(d.subrange(0, d.len() as int) =~= d);
                        }
                    }
                    return None;
                },
            }
        } else {
            proof {
                assert(d.subrange(0, d.len() as int) =~= d);
            }
            break ;
        }
    }
    Some(acc)
}

/// The sign and magnitude of the integer text `s`: `Some((negative, mag))`
/// when `s` is an optional sign and digits whose value fits a `u64`.
pub(crate) fn parse_int_text(s: &Vec<char>) -> (r: Option<(bool, u64)>)
    ensures
        match r {
            Some(p) => {
                &&& int_wellformed(s@)
                &&& p.0 == int_negative(s@)
                &&& p.1 == int_magnitude(s@)
            },
            None => !int_wellformed(s@) || int_magnitude(s@) > u64::MAX,
        },
{
    let (neg, start): (bool, usize) = if s.len() >= 1 && (s[0] == '+' || s[0] == '-') {
        (s[0] == '-', 1)
    } else {
        (false, 0)
    };
    proof {
        if start == 1 {
            assert(int_digits(s@) =~= s@.subrange(1, s@.len() as int));
        } else {
            assert(int_digits(s@) =~= s@.subrange(0, s@.len() as int));
        }
    }
    match parse_digits_u64(s, start) {
        Some(mag) => Some((neg, mag)),
        None => None,
    }
}

/// Parses `s` as the standard library parses an unsigned integer bounded by
/// `max`.
pub(crate) fn parse_uint_text(s: &Vec<char>, max: u64) -> (r: Option<u64>)
    ensures
        match r {
            Some(v) => uint_from_text(s@, max as int) == Some(v as int),
            None => uint_from_text(s@, max as int) is None,
        },
{
    match parse_int_text(s) {
        Some((neg, mag)) => {
            if neg || mag > max {
                None
            } else {
                Some(mag)
            }
        },
        None => None,
    }
}

/// Parses `s` as the standard library parses a signed integer in
/// `[-(mag_min), max]`, where `mag_min == max + 1` is the magnitude of the
/// type's minimum.
pub(crate) fn parse_sint_text(s: &Vec<char>, max: u64) -> (r: Option<(bool, u64)>)
    requires
        max < u64::MAX,
    ensures
        match r {
            Some(p) => {
                &&& sint_from_text(s@, -(max as int) - 1, max as int) == Some(
                    if p.0 {
                        -(p.1 as int)
                    } else {
                        p.1 as int
                    },
                )
                &&& p.1 <= max + 1
                &&& (!p.0 ==> p.1 <= max)
            },
            None => sint_from_text(s@, -(max as int) - 1, max as int) is None,
        },
{
    match parse_int_text(s) {
        Some((neg, mag)) => {
            if neg && mag <= max + 1 {
                Some((true, mag))
            } else if !neg && mag <= max {
                Some((false, mag))
            } else {
                proof {
                    lemma_digits_value_nonneg(int_digits(s@));
                }
                None
            }
        },
        None => None,
    }
}

/// Parses `s` as the standard library parses a `bool`.
pub(crate) fn parse_bool_text(s: &Vec<char>) -> (r: Option<bool>)
    ensures
        r == bool_from_text(s@),
{
    if s.len() == 4 && s[0] == 't' && s[1] == 'r' && s[2] == 'u' && s[3] == 'e' {
        proof {
            assert(s@ =~= seq!['t', 'r', 'u', 'e']);
        }
        Some(true)
    } else if s.len() == 5 && s[0] == 'f' && s[1] == 'a' && s[2] == 'l' && s[3] == 's' && s[4]
        == 'e' {
        proof {
            assert(s@ =~= seq!['f', 'a', 'l', 's', 'e']);
        }
        Some(false)
    } else {
        proof {
            if s@ == seq!['t', 'r', 'u', 'e'] {
                assert(s@.len() == 4 && s@[0] == 't' && s@[1] == 'r' && s@[2] == 'u' && s@[3]
                    == 'e');
            }
            if s@ == seq!['f', 'a', 'l', 's', 'e'] {
                assert(s@.len() == 5 && s@[0] == 'f' && s@[1] == 'a' && s@[2] == 'l' && s@[3] == 's'
                    && s@[4] == 'e');
            }
        }
        None
    }
}

} // verus!
