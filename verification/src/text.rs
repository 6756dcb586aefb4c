//! Text utilities shared by the PVL scanner and the VICAR label resolver:
//! conversion between strings and character vectors, trimming, splitting on
//! a delimiter, and ASCII upper-casing.

use vstd::prelude::*;

use crate::chars::{
    class_matches, class_matches_exec, class_run_end, lemma_run_end, run_end, CharClass,
};

verus! {

/// Index of the first character of `s` that trimming keeps, scanning from the
/// front: the end of the leading run of spaces and tabs.
pub open spec fn trim_start(s: Seq<char>) -> int {
    run_end(s, 0, CharClass::TrimWhitespace)
}

/// Index just past the last character of `s` that trimming keeps, scanning
/// from the back over spaces and tabs, starting at `to`.
pub open spec fn trim_end(s: Seq<char>, to: int) -> int
    decreases to
        when 0 <= to <= s.len()
{
    if to <= 0 || !class_matches(CharClass::TrimWhitespace, s[to - 1]) {
        to
    } else {
        trim_end(s, to - 1)
    }
}

/// `s` with leading and trailing spaces and tabs removed.
pub open spec fn trimmed(s: Seq<char>) -> Seq<char> {
    let a = trim_start(s);
    let b = trim_end(s, s.len() as int);
    if a <= b {
        s.subrange(a, b)
    } else {
        Seq::empty()
    }
}

proof fn lemma_trim_end(s: Seq<char>, to: int)
    requires
        0 <= to <= s.len(),
    ensures
        0 <= trim_end(s, to) <= to,
        trim_end(s, to) > 0 ==> !class_matches(CharClass::TrimWhitespace, s[trim_end(s, to) - 1]),
        forall|i: int|
            trim_end(s, to) <= i < to ==> class_matches(CharClass::TrimWhitespace, s[i]),
    decreases to,
{
    if to > 0 && class_matches(CharClass::TrimWhitespace, s[to - 1]) {
        lemma_trim_end(s, to - 1);
    }
}

/// The copy of `s[from..to]` as a fresh vector.
pub(crate) fn copy_range(s: &Vec<char>, from: usize, to: usize) -> (r: Vec<char>)
    requires
        from <= to <= s@.len(),
    ensures
        r@ == s@.subrange(from as int, to as int),
{
    let mut v: Vec<char> = Vec::new();
    let mut i = from;
    loop
        invariant
            from <= i <= to <= s@.len(),
            v@ == s@.subrange(from as int, i as int),
        ensures
            i == to,
            v@ == s@.subrange(from as int, to as int),
        decreases to - i,
    {
        if i < to {
            v.push(s[i]);
            proof {
                assert(v@ =~= s@.subrange(from as int, i as int + 1));
            }
            i = i + 1;
        } else {
            break ;
        }
    }
    v
}

/// Trims spaces and tabs from both ends of `s[from..to]`.
pub(crate) fn trim_range(s: &Vec<char>, from: usize, to: usize) -> (r: Vec<char>)
    requires
        from <= to <= s@.len(),
    ensures
        r@ == trimmed(s@.subrange(from as int, to as int)),
{
    let ghost sub = s@.subrange(from as int, to as int);
    proof {
        assert(sub.len() == to - from);
    }
    let mut a = from;
    loop
        invariant
            from <= a <= to <= s@.len(),
            sub == s@.subrange(from as int, to as int),
            sub.len() == to - from,
            run_end(sub, 0, CharClass::TrimWhitespace) == run_end(
                sub,
                a - from,
                CharClass::TrimWhitespace,
            ),
        ensures
            from <= a <= to <= s@.len(),
            run_end(sub, 0, CharClass::TrimWhitespace) == a - from,
        decreases to - a,
    {
        if a < to {
            if class_matches_exec(CharClass::TrimWhitespace, s[a]) {
                proof {
                    assert(sub[a - from] == s@[a as int]);
                }
                a = a + 1;
            } else {
                proof {
                    assert(sub[a - from] == s@[a as int]);
                }
                break ;
            }
        } else {
            break ;
        }
    }
    let mut b = to;
    loop
        invariant
            from <= a <= b <= to <= s@.len(),
            sub == s@.subrange(from as int, to as int),
            sub.len() == to - from,
            trim_end(sub, to - from) == trim_end(sub, b - from),
        ensures
            from <= a <= b <= to <= s@.len(),
            trim_end(sub, to - from) == b - from || (b == a && trim_end(sub, to - from) <= a
                - from),
        decreases b,
    {
        if b > a {
            if class_matches_exec(CharClass::TrimWhitespace, s[b - 1]) {
                proof {
                    assert(sub[b - 1 - from] == s@[b - 1]);
                }
                b = b - 1;
            } else {
                proof {
                    assert(sub[b - 1 - from] == s@[b - 1]);
                    assert(trim_end(sub, b - from) == b - from);
                }
                break ;
            }
        } else {
            proof {
                lemma_trim_end(sub, b - from);
            }
            break ;
        }
    }
    proof {
        lemma_trim_end(sub, to - from);
        lemma_run_end(sub, 0, CharClass::TrimWhitespace);
        assert(trimmed(sub) =~= sub.subrange(a - from, b - from));
        assert(sub.subrange(a - from, b - from) =~= s@.subrange(a as int, b as int));
    }
    copy_range(s, a, b)
}

/// The characters of `s` as a vector.
pub fn chars_of(s: &str) -> (r: Vec<char>)
    ensures
        r@ == s@,
{
    let n = s.unicode_len();
    let mut v: Vec<char> = Vec::new();
    let mut i: usize = 0;
    loop
        invariant
            i <= n,
            n == s@.len(),
            v@ == s@.subrange(0, i as int),
        ensures
            v@ == s@.subrange(0, n as int),
        decreases n - i,
    {
        if i < n {
            v.push(s.get_char(i));
            proof {
                assert(v@ =~= s@.subrange(0, i as int + 1));
            }
            i = i + 1;
        } else {
            break ;
        }
    }
    proof {
        assert(s@.subrange(0, n as int) =~= s@);
    }
    v
}

/// Relies on `String`'s `FromIterator<char>` impl: collecting characters
/// yields the string whose characters are exactly the collected ones.
#[verifier::external_body]
pub(crate) fn string_from_chars(v: &Vec<char>) -> (r: String)
    ensures
        r@ == v@,
{
    v.iter().collect()
}

/// `s` split at every character that is not of class `k`; `k` names the
/// class of every character that is not the delimiter. Splitting always
/// yields at least one piece, and an empty piece between two adjacent
/// delimiters.
pub open spec fn split_on_class(s: Seq<char>, k: CharClass) -> Seq<Seq<char>>
    decreases s.len(),
{
    let e = run_end(s, 0, k);
    if e >= s.len() || e < 0 {
        seq![s]
    } else {
        seq![s.subrange(0, e)] + split_on_class(s.subrange(e + 1, s.len() as int), k)
    }
}

pub proof fn lemma_split_on_class_len(s: Seq<char>, k: CharClass)
    ensures
        split_on_class(s, k).len() >= 1,
    decreases s.len(),
{
    lemma_run_end(s, 0, k);
    let e = run_end(s, 0, k);
    if e < s.len() {
        lemma_split_on_class_len(s.subrange(e + 1, s.len() as int), k);
    }
}

/// Splits `s[from..]` at every character that is not of class `k`.
pub(crate) fn split_range_on_class(s: &Vec<char>, from: usize, k: CharClass) -> (r: Vec<Vec<char>>)
    requires
        from <= s@.len(),
    ensures
        r@.map_values(|p: Vec<char>| p@) == split_on_class(
            s@.subrange(from as int, s@.len() as int),
            k,
        ),
        r@.len() >= 1,
    decreases s@.len() - from,
{
    let e = class_run_end(s, from, k);
    proof {
        assert(s@.subrange(from as int, s@.len() as int).subrange(
            0,
            e - from,
        ) =~= s@.subrange(from as int, e as int));
        lemma_run_end_sub(s@, from as int, k);
    }
    let piece = copy_range(s, from, e);
    if e >= s.len() {
        let mut r: Vec<Vec<char>> = Vec::new();
        r.push(piece);
        proof {
            assert(s@.subrange(from as int, s@.len() as int) =~= piece@);
            assert(r@.map_values(|p: Vec<char>| p@) =~= seq![piece@]);
        }
        r
    } else {
        let mut rest = split_range_on_class(s, e + 1, k);
        let ghost restview = rest@.map_values(|p: Vec<char>| p@);
        proof {
            assert(s@.subrange(from as int, s@.len() as int).subrange(
                e - from + 1,
                s@.len() - from,
            ) =~= s@.subrange(e as int + 1, s@.len() as int));
        }
        rest.insert(0, piece);
        proof {
            assert(rest@.map_values(|p: Vec<char>| p@) =~= seq![piece@] + restview);
            assert(seq![piece@] + restview =~= split_on_class(
                s@.subrange(from as int, s@.len() as int),
                k,
            ));
        }
        rest
    }
}

proof fn lemma_run_end_sub(s: Seq<char>, from: int, k: CharClass)
    requires
        0 <= from <= s.len(),
    ensures
        run_end(s.subrange(from, s.len() as int), 0, k) == run_end(s, from, k) - from,
    decreases s.len() - from,
{
    lemma_run_end(s, from, k);
    lemma_run_end(s.subrange(from, s.len() as int), 0, k);
    let sub = s.subrange(from, s.len() as int);
    let e1 = run_end(sub, 0, k);
    let e2 = run_end(s, from, k) - from;
    if e1 < e2 {
        assert(class_matches(k, s[from + e1]));
        assert(!class_matches(k, sub[e1]));
        assert(sub[e1] == s[from + e1]);
    }
    if e2 < e1 {
        assert(class_matches(k, sub[e2]));
        assert(!class_matches(k, s[from + e2]));
        assert(sub[e2] == s[from + e2]);
    }
}

/// Compares two character vectors.
pub(crate) fn chars_eq(a: &Vec<char>, b: &Vec<char>) -> (r: bool)
    ensures
        r == (a@ == b@),
{
    if a.len() != b.len() {
        return false;
    }
    let mut i: usize = 0;
    loop
        invariant
            i <= a@.len(),
            a@.len() == b@.len(),
            forall|j: int| 0 <= j < i ==> a@[j] == b@[j],
        ensures
            i == a@.len(),
            forall|j: int| 0 <= j < a@.len() ==> a@[j] == b@[j],
        decreases a@.len() - i,
    {
        if i < a.len() {
            if a[i] != b[i] {
                return false;
            }
            i = i + 1;
        } else {
            break ;
        }
    }
    proof {
        assert(a@ =~= b@);
    }
    true
}

/// Compares a string against a character vector.
pub(crate) fn string_eq_chars(s: &String, q: &Vec<char>) -> (r: bool)
    ensures
        r == (s@ == q@),
{
    let sc = chars_of(s.as_str());
    chars_eq(&sc, q)
}

/// `c` upper-cased when it is an ASCII lower-case letter, `c` itself
/// otherwise.
pub open spec fn upper_char(c: char) -> char {
    if 'a' <= c && c <= 'z' {
        ((c as u8) - 0x20) as char
    } else {
        c
    }
}

/// `s` with every ASCII lower-case letter upper-cased.
pub open spec fn upper(s: Seq<char>) -> Seq<char> {
    s.map_values(|c: char| upper_char(c))
}

/// Upper-cases the ASCII lower-case letters of `s`.
pub(crate) fn upper_exec(s: &Vec<char>) -> (r: Vec<char>)
    ensures
        r@ == upper(s@),
{
    let mut v: Vec<char> = Vec::new();
    let mut i: usize = 0;
    loop
        invariant
            i <= s@.len(),
            v@ == upper(s@.subrange(0, i as int)),
        ensures
            v@ == upper(s@),
        decreases s@.len() - i,
    {
        if i < s.len() {
            let c = s[i];
            if 'a' <= c && c <= 'z' {
                let b = c as u8;
                v.push((b - 0x20) as char);
            } else {
                v.push(c);
            }
            proof {
                assert(v@ =~= upper(s@.subrange(0, i as int + 1)));
            }
            i = i + 1;
        } else {
            break ;
        }
    }
    proof {
        assert(upper(s@.subrange(0, s@.len() as int)) =~= upper(s@));
    }
    v
}

} // verus!
