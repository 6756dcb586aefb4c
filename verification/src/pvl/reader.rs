//! The PVL scanner: a cursor over the label text with character-level
//! lookahead, line-boundary and continuation detection, comment skipping,
//! and the readers for symbols, values, key-value pairs, groups and objects.
//!
//! Every operation is specified over the pair of the text (carriage returns
//! already stripped) and the cursor position; the spec functions here are
//! the mathematical mirrors of the readers.

use vstd::prelude::*;

use crate::chars::{all_of_class, check_all_of_class, class_run_end, run_end, CharClass};
use crate::text::{chars_of, copy_range, string_from_chars, trim_range, trimmed};
use super::error::Error;
use super::grouping::{Group, KeyValuePair, KeyValuePairModel, Object};
use super::symbol::{symbol_of_text, Symbol, SymbolModel};
use super::value::{inferred_type, Value, ValueModel, ValueType};

verus! {

/// The number of leading spaces that marks a value continuation line.
pub const CONTINUATION_PREFIX_LEN: usize = 37;

/// The cursor is at the start of a line: at the very beginning of the text,
/// or right after a line terminator.
pub open spec fn line_start_at(t: Seq<char>, p: int) -> bool {
    p == 0 || t[p - 1] == '\n' || t[p - 1] == '\r'
}

/// A `/*` comment opening starts at `p`.
pub open spec fn comment_open_at(t: Seq<char>, p: int) -> bool {
    p + 1 < t.len() && t[p] == '/' && t[p + 1] == '*'
}

/// A `*/` comment closing starts at `p`.
pub open spec fn comment_close_at(t: Seq<char>, p: int) -> bool {
    p + 1 < t.len() && t[p] == '*' && t[p + 1] == '/'
}

/// The first position at or after `p` where a comment closing starts.
pub open spec fn comment_close_from(t: Seq<char>, p: int) -> Option<int>
    decreases t.len() - p
        when 0 <= p
{
    if p + 1 >= t.len() {
        None
    } else if t[p] == '*' && t[p + 1] == '/' {
        Some(p)
    } else {
        comment_close_from(t, p + 1)
    }
}

/// The `GROUP` keyword starts at `p`, with at least one character after it.
pub open spec fn group_keyword_at(t: Seq<char>, p: int) -> bool {
    p + 5 < t.len() && t[p] == 'G' && t[p + 1] == 'R' && t[p + 2] == 'O' && t[p + 3] == 'U' && t[p
        + 4] == 'P'
}

/// The `OBJECT` keyword starts at `p`, with at least one character after it.
pub open spec fn object_keyword_at(t: Seq<char>, p: int) -> bool {
    p + 6 < t.len() && t[p] == 'O' && t[p + 1] == 'B' && t[p + 2] == 'J' && t[p + 3] == 'E' && t[p
        + 4] == 'C' && t[p + 5] == 'T'
}

/// The `END` keyword starts at `p`, with at least one character after it.
pub open spec fn end_keyword_at(t: Seq<char>, p: int) -> bool {
    p + 3 < t.len() && t[p] == 'E' && t[p + 1] == 'N' && t[p + 2] == 'D'
}

/// The line starting at `p` holds only spaces, looking no further than 100
/// characters ahead.
pub open spec fn blank_line_at(t: Seq<char>, p: int) -> bool {
    let le = run_end(t, p, CharClass::NotNewline);
    let stop = if le - p > 100 {
        p + 100
    } else {
        le
    };
    all_of_class(t, p, stop, CharClass::Space)
}

/// A value continuation line starts at `p`: a line start followed by the
/// fixed-width prefix of spaces, with text remaining past the prefix.
pub open spec fn continuation_at(t: Seq<char>, p: int) -> bool {
    &&& line_start_at(t, p)
    &&& p + CONTINUATION_PREFIX_LEN < t.len()
    &&& all_of_class(t, p, p + CONTINUATION_PREFIX_LEN, CharClass::Space)
}

/// Where the symbol that starts at `p` stops: at the first `=`, line
/// terminator or the text's end.
pub open spec fn symbol_stop(t: Seq<char>, p: int) -> int {
    run_end(t, p, CharClass::SymbolChar)
}

/// The symbol read from position `p`: the text up to the stop, trimmed and
/// classified.
pub open spec fn read_symbol_at(t: Seq<char>, p: int) -> SymbolModel {
    symbol_of_text(trimmed(t.subrange(p, symbol_stop(t, p))))
}

/// What reading the remainder of a line yields: the collected characters
/// (not yet trimmed) and the position where the read stops.
pub struct LineOutcome {
    pub line: Seq<char>,
    pub end: int,
}

/// Reading the rest of the line from `p`: characters accumulate until a
/// line terminator or the text's end; an `=` is skipped together with the
/// following character, which is then taken without a further `=` check.
pub open spec fn remaining_line_at(t: Seq<char>, p: int) -> LineOutcome
    decreases t.len() - p
        when 0 <= p <= t.len()
{
    if p >= t.len() {
        LineOutcome { line: Seq::empty(), end: p }
    } else if t[p] == '=' {
        if p + 2 >= t.len() {
            LineOutcome { line: Seq::empty(), end: t.len() as int }
        } else if t[p + 2] == '\n' || t[p + 2] == '\r' {
            LineOutcome { line: Seq::empty(), end: p + 2 }
        } else {
            let rest = remaining_line_at(t, p + 3);
            LineOutcome { line: seq![t[p + 2]] + rest.line, end: rest.end }
        }
    } else if t[p] == '\n' || t[p] == '\r' {
        LineOutcome { line: Seq::empty(), end: p }
    } else {
        let rest = remaining_line_at(t, p + 1);
        LineOutcome { line: seq![t[p]] + rest.line, end: rest.end }
    }
}

pub proof fn lemma_remaining_line_at(t: Seq<char>, p: int)
    requires
        0 <= p <= t.len(),
    ensures
        p <= remaining_line_at(t, p).end <= t.len(),
    decreases t.len() - p,
{
    if p < t.len() && t[p] == '=' {
        if p + 2 < t.len() && t[p + 2] != '\n' && t[p + 2] != '\r' {
            lemma_remaining_line_at(t, p + 3);
        }
    } else if p < t.len() && t[p] != '\n' && t[p] != '\r' {
        lemma_remaining_line_at(t, p + 1);
    }
}

/// The mathematical shape of a `PvlReader`: the text it scans and the
/// cursor position.
pub struct ReaderModel {
    pub text: Seq<char>,
    pub pos: int,
}

/// `s` with every carriage return removed.
pub open spec fn without_carriage_returns(s: Seq<char>) -> Seq<char>
    decreases s.len(),
{
    if s.len() == 0 {
        Seq::empty()
    } else if s[0] == '\r' {
        without_carriage_returns(s.drop_first())
    } else {
        seq![s[0]] + without_carriage_returns(s.drop_first())
    }
}

/// The PVL scanning cursor.
#[derive(Debug)]
pub struct PvlReader {
    content: Vec<char>,
    pos: usize,
}

impl View for PvlReader {
    type V = ReaderModel;

    closed spec fn view(&self) -> ReaderModel {
        ReaderModel { text: self.content@, pos: self.pos as int }
    }
}

impl PvlReader {
    /// The cursor never stands past the text's end.
    pub open spec fn wf(&self) -> bool {
        0 <= self@.pos <= self@.text.len()
    }

    /// Constructs a cursor over the given text with carriage returns
    /// stripped out.
    pub fn new(content: &str) -> (r: PvlReader)
        ensures
            r@.text == without_carriage_returns(content@),
            r@.pos == 0,
            r.wf(),
    {
        let chars = chars_of(content);
        let filtered = Self::filter_linefeeds(&chars);
        PvlReader { content: filtered, pos: 0 }
    }

    /// Removes every carriage return.
    fn filter_linefeeds(s: &Vec<char>) -> (r: Vec<char>)
        ensures
            r@ == without_carriage_returns(s@),
    {
        let mut v: Vec<char> = Vec::new();
        let mut i: usize = 0;
        proof {
            assert(s@.subrange(0, s@.len() as int) =~= s@);
            assert(Seq::<char>::empty() + without_carriage_returns(s@) =~= without_carriage_returns(
                s@,
            ));
        }
        loop
            invariant
                i <= s@.len(),
                without_carriage_returns(s@) == v@ + without_carriage_returns(
                    s@.subrange(i as int, s@.len() as int),
                ),
            ensures
                v@ == without_carriage_returns(s@),
            decreases s@.len() - i,
        {
            if i < s.len() {
                let ghost rest = s@.subrange(i as int, s@.len() as int);
                proof {
                    assert(rest.drop_first() =~= s@.subrange(i as int + 1, s@.len() as int));
                    assert(rest[0] == s@[i as int]);
                }
                let c = s[i];
                if c != '\r' {
                    proof {
                        assert((v@ + seq![c]) + without_carriage_returns(rest.drop_first()) =~= v@
                            + (seq![c] + without_carriage_returns(rest.drop_first())));
                    }
                    v.push(c);
                }
                i = i + 1;
            } else {
                proof {
                    assert(s@.subrange(i as int, s@.len() as int) =~= Seq::<char>::empty());
                    assert(v@ + Seq::<char>::empty() =~= v@);
                }
                break ;
            }
        }
        v
    }

    /// The character at index `indx` of the text.
    pub fn char_at(&self, indx: usize) -> (r: Result<char, Error>)
        ensures
            match r {
                Ok(c) => indx < self@.text.len() && c == self@.text[indx as int],
                Err(e) => indx >= self@.text.len() && e is Eof,
            },
    {
        if indx >= self.content.len() {
            Err(Error::Eof)
        } else {
            Ok(self.content[indx])
        }
    }

    /// The character `indx` places past the cursor.
    pub fn char_at_pos_plus_n(&self, indx: usize) -> (r: Result<char, Error>)
        requires
            self.wf(),
        ensures
            match r {
                Ok(c) => self@.pos + indx < self@.text.len() && c == self@.text[self@.pos + indx],
                Err(e) => self@.pos + indx >= self@.text.len() && e is Eof,
            },
    {
        if indx >= self.content.len() - self.pos {
            Err(Error::Eof)
        } else {
            Ok(self.content[self.pos + indx])
        }
    }

    /// The character under the cursor.
    pub fn current_char(&self) -> (r: Result<char, Error>)
        ensures
            match r {
                Ok(c) => self@.pos < self@.text.len() && c == self@.text[self@.pos],
                Err(e) => self@.pos >= self@.text.len() && e is Eof,
            },
    {
        self.char_at(self.pos)
    }

    /// The character right after the cursor.
    pub fn peek_char(&self) -> (r: Result<char, Error>)
        requires
            self.wf(),
        ensures
            match r {
                Ok(c) => self@.pos + 1 < self@.text.len() && c == self@.text[self@.pos + 1],
                Err(e) => self@.pos + 1 >= self@.text.len() && e is Eof,
            },
    {
        self.char_at_pos_plus_n(1)
    }

    /// Advances the cursor one place, saturating at the text's end, and
    /// returns the character then under it.
    pub fn next_char(&mut self) -> (r: Result<char, Error>)
        requires
            old(self).wf(),
        ensures
            final(self).wf(),
            final(self)@.text == old(self)@.text,
            final(self)@.pos == if old(self)@.pos < old(self)@.text.len() {
                old(self)@.pos + 1
            } else {
                old(self)@.pos
            },
            match r {
                Ok(c) => final(self)@.pos < old(self)@.text.len() && c
                    == old(self)@.text[final(self)@.pos],
                Err(e) => final(self)@.pos >= old(self)@.text.len() && e is Eof,
            },
    {
        if self.pos < self.content.len() {
            self.pos = self.pos + 1;
        }
        self.current_char()
    }

    /// The cursor stands at or past the text's end.
    pub fn is_eof(&self) -> (r: bool)
        ensures
            r == (self@.pos >= self@.text.len()),
    {
        self.pos >= self.content.len()
    }

    /// More than `n` characters remain past the cursor.
    pub fn has_n_remaining(&self, n: usize) -> (r: bool)
        requires
            self.wf(),
        ensures
            r == (self@.pos + n < self@.text.len()),
    {
        n < self.content.len() - self.pos
    }

    /// Advances the cursor `num_chars` places, stopping at the text's end;
    /// fails when the cursor already stands there.
    pub fn jump(&mut self, num_chars: usize) -> (r: Result<(), Error>)
        requires
            old(self).wf(),
        ensures
            final(self).wf(),
            final(self)@.text == old(self)@.text,
            match r {
                Ok(_) => old(self)@.pos < old(self)@.text.len() && final(self)@.pos == if old(
                    self,
                )@.pos + num_chars <= old(self)@.text.len() {
                    old(self)@.pos + num_chars
                } else {
                    old(self)@.text.len() as int
                },
                Err(e) => old(self)@.pos >= old(self)@.text.len() && e is Eof && final(self)@.pos
                    == old(self)@.pos,
            },
    {
        if self.pos >= self.content.len() {
            Err(Error::Eof)
        } else {
            if num_chars <= self.content.len() - self.pos {
                self.pos = self.pos + num_chars;
            } else {
                self.pos = self.content.len();
            }
            Ok(())
        }
    }

    /// The cursor stands at a line start.
    pub fn is_at_line_start(&self) -> (r: Result<bool, Error>)
        requires
            self.wf(),
        ensures
            r matches Ok(b) && b == line_start_at(self@.text, self@.pos),
    {
        if self.pos == 0 {
            Ok(true)
        } else {
            let c = self.content[self.pos - 1];
            Ok(c == '\r' || c == '\n')
        }
    }

    /// A `/*` comment opening starts at the cursor.
    pub fn is_at_multiline_comment_start(&self) -> (r: Result<bool, Error>)
        requires
            self.wf(),
        ensures
            r matches Ok(b) && b == comment_open_at(self@.text, self@.pos),
    {
        if self.pos >= self.content.len() || self.pos + 1 >= self.content.len() {
            Ok(false)
        } else {
            Ok(self.content[self.pos] == '/' && self.content[self.pos + 1] == '*')
        }
    }

    /// A `*/` comment closing starts at the cursor.
    pub fn is_at_multiline_comment_end(&self) -> (r: Result<bool, Error>)
        requires
            self.wf(),
        ensures
            r matches Ok(b) && b == comment_close_at(self@.text, self@.pos),
    {
        if self.content.len() - self.pos <= 1 {
            Ok(false)
        } else {
            Ok(self.content[self.pos] == '*' && self.content[self.pos + 1] == '/')
        }
    }

    /// Skips the multi-line comment under the cursor, capturing its text:
    /// the characters strictly between the opening and the closing bracket,
    /// less the interior's first character and its last. Fails when the
    /// cursor is not at a comment opening, or when the comment never
    /// closes.
    pub fn skip_multiline_comment(&mut self) -> (r: Result<String, Error>)
        requires
            old(self).wf(),
        ensures
            final(self).wf(),
            final(self)@.text == old(self)@.text,
            ({
                let t = old(self)@.text;
                let p = old(self)@.pos;
                if !comment_open_at(t, p) {
                    r matches Err(e) && e is CommentIsntComment && final(self)@.pos == p
                } else {
                    match comment_close_from(t, p) {
                        None => r matches Err(e) && e is Eof && final(self)@.pos == t.len(),
                        Some(ce) => r matches Ok(s) && s@ == comment_interior(t, p, ce)
                            && final(self)@.pos == ce + 2,
                    }
                }
            }),
    {
        let open = match self.is_at_multiline_comment_start() {
            Ok(b) => b,
            Err(_) => false,
        };
        if !open {
            return Err(Error::CommentIsntComment);
        }
        match find_comment_close(&self.content, self.pos) {
            None => {
                self.pos = self.content.len();
                Err(Error::Eof)
            },
            Some(e) => {
                proof {
                    assert(self.pos <= e);
                    assert(e + 2 <= self.content.len());
                }
                let interior = if e >= 1 && self.pos + 2 <= e - 1 {
                    copy_range(&self.content, self.pos + 2, e - 1)
                } else {
                    Vec::new()
                };
                self.pos = e + 2;
                Ok(string_from_chars(&interior))
            },
        }
    }

    /// The cursor stands on a `^` pointer prefix.
    pub fn is_at_pointer(&self) -> (r: Result<bool, Error>)
        ensures
            match r {
                Ok(b) => self@.pos < self@.text.len() && b == (self@.text[self@.pos] == '^'),
                Err(e) => self@.pos >= self@.text.len() && e is Eof,
            },
    {
        match self.current_char() {
            Ok(c) => Ok(c == '^'),
            Err(why) => Err(why),
        }
    }

    /// The cursor stands at a `GROUP` keyword on a line start. Near the
    /// text's end the answer is no; away from a line start the check fails.
    pub fn is_at_group(&self) -> (r: Result<bool, Error>)
        requires
            self.wf(),
        ensures
            match r {
                Ok(b) => (self@.pos + 5 < self@.text.len() && line_start_at(self@.text, self@.pos)
                    && b == group_keyword_at(self@.text, self@.pos)) || (self@.pos + 5
                    >= self@.text.len() && b == false),
                Err(e) => self@.pos + 5 < self@.text.len() && !line_start_at(
                    self@.text,
                    self@.pos,
                ) && e is Programming,
            },
    {
        if !self.has_n_remaining(5) {
            Ok(false)
        } else {
            let ls = match self.is_at_line_start() {
                Ok(b) => b,
                Err(e) => { return Err(e) },
            };
            if !ls {
                Err(Error::Programming(String::from_str(
                    "Attempt to check if at group when not at start of line",
                )))
            } else {
                proof {
                    assert(self@.pos + 5 < self@.text.len());
                    assert(self.pos + 5 < self.content.len());
                }
                Ok(self.content[self.pos] == 'G' && self.content[self.pos + 1] == 'R'
                    && self.content[self.pos + 2] == 'O' && self.content[self.pos + 3] == 'U'
                    && self.content[self.pos + 4] == 'P')
            }
        }
    }

    /// The cursor stands at an `OBJECT` keyword. Near the text's end the
    /// answer is no; this check does not ask for a line start.
    pub fn is_at_object(&self) -> (r: Result<bool, Error>)
        requires
            self.wf(),
        ensures
            r matches Ok(b) && b == object_keyword_at(self@.text, self@.pos),
    {
        if !self.has_n_remaining(6) {
            Ok(false)
        } else {
            proof {
                assert(self@.pos + 6 < self@.text.len());
                assert(self.pos + 6 < self.content.len());
            }
            Ok(self.content[self.pos] == 'O' && self.content[self.pos + 1] == 'B'
                && self.content[self.pos + 2] == 'J' && self.content[self.pos + 3] == 'E'
                && self.content[self.pos + 4] == 'C' && self.content[self.pos + 5] == 'T')
        }
    }

    /// The cursor stands at an `END` keyword with text remaining past it.
    pub fn is_at_end(&self) -> (r: bool)
        requires
            self.wf(),
        ensures
            r == end_keyword_at(self@.text, self@.pos),
    {
        if self.has_n_remaining(3) {
            proof {
                assert(self@.pos + 3 < self@.text.len());
                assert(self.pos + 3 < self.content.len());
            }
            self.content[self.pos] == 'E' && self.content[self.pos + 1] == 'N'
                && self.content[self.pos + 2] == 'D'
        } else {
            false
        }
    }

    /// The cursor stands on an `=`.
    pub fn is_at_equals(&self) -> (r: Result<bool, Error>)
        ensures
            match r {
                Ok(b) => self@.pos < self@.text.len() && b == (self@.text[self@.pos] == '='),
                Err(e) => self@.pos >= self@.text.len() && e is Eof,
            },
    {
        match self.current_char() {
            Ok(c) => Ok(c == '='),
            Err(why) => Err(why),
        }
    }

    /// The line under the cursor is blank: it holds only spaces, looking at
    /// most 100 characters ahead. Asks for a line start and for text
    /// remaining.
    pub fn is_blank_line(&self) -> (r: Result<bool, Error>)
        requires
            self.wf(),
        ensures
            match r {
                Ok(b) => line_start_at(self@.text, self@.pos) && self@.pos < self@.text.len() && b
                    == blank_line_at(self@.text, self@.pos),
                Err(e) => (!line_start_at(self@.text, self@.pos) && e is Programming) || (
                line_start_at(self@.text, self@.pos) && self@.pos >= self@.text.len()
                    && e is Eof),
            },
    {
        let ls = match self.is_at_line_start() {
            Ok(b) => b,
            Err(e) => { return Err(e) },
        };
        if !ls {
            Err(Error::Programming(String::from_str("Blank line check when not at start of line")))
        } else if self.pos >= self.content.len() {
            Err(Error::Eof)
        } else {
            let le = class_run_end(&self.content, self.pos, CharClass::NotNewline);
            let stop = if le - self.pos > 100 {
                self.pos + 100
            } else {
                le
            };
            Ok(check_all_of_class(&self.content, self.pos, stop, CharClass::Space))
        }
    }

    /// A value continuation line starts at the cursor: the fixed-width
    /// prefix of spaces right after a line start. Fails when fewer
    /// characters than the prefix and one more remain.
    pub fn is_at_value_line_continuation(&self) -> (r: Result<bool, Error>)
        requires
            self.wf(),
        ensures
            match r {
                Ok(b) => (!line_start_at(self@.text, self@.pos) && b == false) || (line_start_at(
                    self@.text,
                    self@.pos,
                ) && self@.pos + CONTINUATION_PREFIX_LEN < self@.text.len() && b == continuation_at(
                    self@.text,
                    self@.pos,
                )),
                Err(e) => line_start_at(self@.text, self@.pos) && self@.pos
                    + CONTINUATION_PREFIX_LEN >= self@.text.len() && e is Eof,
            },
    {
        let ls = match self.is_at_line_start() {
            Ok(b) => b,
            Err(e) => { return Err(e) },
        };
        if !ls {
            Ok(false)
        } else if CONTINUATION_PREFIX_LEN >= self.content.len() - self.pos {
            Err(Error::Eof)
        } else {
            Ok(
                check_all_of_class(
                    &self.content,
                    self.pos,
                    self.pos + CONTINUATION_PREFIX_LEN,
                    CharClass::Space,
                ),
            )
        }
    }

    /// Moves the cursor past the run of line feeds under it; reaching the
    /// text's end that way is a failure, as is starting at it.
    pub fn jump_to_next_line(&mut self) -> (r: Result<(), Error>)
        requires
            old(self).wf(),
        ensures
            final(self).wf(),
            final(self)@.text == old(self)@.text,
            ({
                let t = old(self)@.text;
                let p = old(self)@.pos;
                let e = run_end(t, p, CharClass::Newline);
                if p >= t.len() {
                    r matches Err(err) && err is Eof && final(self)@.pos == p
                } else if e >= t.len() {
                    r matches Err(err) && err is Eof && final(self)@.pos == t.len()
                } else {
                    r is Ok && final(self)@.pos == e
                }
            }),
    {
        if self.pos >= self.content.len() {
            return Err(Error::Eof);
        }
        let e = class_run_end(&self.content, self.pos, CharClass::Newline);
        self.pos = e;
        if e >= self.content.len() {
            Err(Error::Eof)
        } else {
            Ok(())
        }
    }

    /// Gives up on the line under the cursor: moves to its terminator, or
    /// to the text's end.
    pub(crate) fn advance_to_line_end(&mut self)
        requires
            old(self).wf(),
        ensures
            final(self).wf(),
            final(self)@.text == old(self)@.text,
            final(self)@.pos == run_end(old(self)@.text, old(self)@.pos, CharClass::NotNewline),
    {
        let le = class_run_end(&self.content, self.pos, CharClass::NotNewline);
        self.pos = le;
    }

    /// Moves the cursor back to the beginning of its line.
    pub fn rewind_to_line_beginning(&mut self) -> (r: Result<(), Error>)
        requires
            old(self).wf(),
        ensures
            final(self).wf(),
            final(self)@.text == old(self)@.text,
            final(self)@.pos == line_begin(old(self)@.text, old(self)@.pos),
            r is Ok,
    {
        loop
            invariant
                self.wf(),
                self@.text == old(self)@.text,
                line_begin(old(self)@.text, old(self)@.pos) == line_begin(self@.text, self@.pos),
            ensures
                self.wf(),
                self@.text == old(self)@.text,
                self@.pos == line_begin(old(self)@.text, old(self)@.pos),
            decreases self@.pos,
        {
            if self.pos != 0 {
                let c = self.content[self.pos - 1];
                if c == '\r' || c == '\n' {
                    break ;
                }
                self.pos = self.pos - 1;
            } else {
                break ;
            }
        }
        Ok(())
    }
}

impl PvlReader {
    /// Reads the left-hand symbol of the line under the cursor, leaving the
    /// cursor on the `=`, the line terminator or the text's end. Fails on a
    /// continuation line, or away from a line start.
    pub fn read_symbol(&mut self) -> (r: Result<Symbol, Error>)
        requires
            old(self).wf(),
        ensures
            final(self).wf(),
            final(self)@.text == old(self)@.text,
            ({
                let t = old(self)@.text;
                let p = old(self)@.pos;
                if continuation_at(t, p) {
                    r matches Err(e) && e is Syntax && final(self)@.pos == p
                } else if !line_start_at(t, p) {
                    r matches Err(e) && e is Programming && final(self)@.pos == p
                } else {
                    r matches Ok(sym) && sym@ == read_symbol_at(t, p) && final(self)@.pos
                        == symbol_stop(t, p)
                }
            }),
    {
        let cont = match self.is_at_value_line_continuation() {
            Ok(b) => b,
            Err(_) => false,
        };
        if cont {
            return Err(
                Error::Syntax(
                    String::from_str(
                        "Value line continuation without a preceeding key value pair",
                    ),
                ),
            );
        }
        let ls = match self.is_at_line_start() {
            Ok(b) => b,
            Err(e) => { return Err(e) },
        };
        if !ls {
            return Err(
                Error::Programming(
                    String::from_str(
                        "Attempt to read a key value pair when not at beginning of a line",
                    ),
                ),
            );
        }
        let stop = class_run_end(&self.content, self.pos, CharClass::SymbolChar);
        let token = trim_range(&self.content, self.pos, stop);
        self.pos = stop;
        Ok(super::symbol::classify_token(token))
    }

    /// Reads the rest of the line as characters, trimmed, leaving the
    /// cursor where the read stopped.
    pub(crate) fn take_line(&mut self) -> (v: Vec<char>)
        requires
            old(self).wf(),
        ensures
            final(self).wf(),
            final(self)@.text == old(self)@.text,
            v@ == trimmed(remaining_line_at(old(self)@.text, old(self)@.pos).line),
            final(self)@.pos == remaining_line_at(old(self)@.text, old(self)@.pos).end,
    {
        let ghost t = self@.text;
        let ghost p0 = self@.pos;
        let mut acc: Vec<char> = Vec::new();
        proof {
            assert(remaining_line_at(t, p0).line =~= Seq::<char>::empty() + remaining_line_at(
                t,
                p0,
            ).line);
        }
        loop
            invariant
                self.wf(),
                self@.text == t,
                remaining_line_at(t, p0).line == acc@ + remaining_line_at(t, self@.pos).line,
                remaining_line_at(t, p0).end == remaining_line_at(t, self@.pos).end,
            ensures
                self.wf(),
                self@.text == t,
                acc@ == remaining_line_at(t, p0).line,
                self@.pos == remaining_line_at(t, p0).end,
            decreases t.len() - self@.pos,
        {
            let ghost p = self@.pos;
            if self.pos >= self.content.len() {
                proof {
                    assert(acc@ + Seq::<char>::empty() =~= acc@);
                }
                break ;
            }
            let c = self.content[self.pos];
            if c == '=' {
                if self.content.len() - self.pos <= 2 {
                    self.pos = self.content.len();
                    proof {
                        assert(acc@ + Seq::<char>::empty() =~= acc@);
                    }
                    break ;
                }
                proof {
                    assert(self.pos + 2 < self.content.len());
                }
                let c2 = self.content[self.pos + 2];
                if c2 == '\n' || c2 == '\r' {
                    self.pos = self.pos + 2;
                    proof {
                        assert(acc@ + Seq::<char>::empty() =~= acc@);
                    }
                    break ;
                }
                proof {
                    let rest = remaining_line_at(t, p + 3);
                    assert((acc@ + seq![c2]) + rest.line =~= acc@ + (seq![c2] + rest.line));
                }
                acc.push(c2);
                self.pos = self.pos + 3;
            } else if c == '\n' || c == '\r' {
                proof {
                    assert(acc@ + Seq::<char>::empty() =~= acc@);
                }
                break ;
            } else {
                proof {
                    let rest = remaining_line_at(t, p + 1);
                    assert((acc@ + seq![c]) + rest.line =~= acc@ + (seq![c] + rest.line));
                }
                acc.push(c);
                self.pos = self.pos + 1;
            }
        }
        let r = trim_range(&acc, 0, acc.len());
        proof {
            assert(acc@.subrange(0, acc@.len() as int) =~= acc@);
        }
        r
    }

    /// Reads the rest of the line from the cursor: the text after an `=`
    /// (skipping the character right after it), up to the line terminator
    /// or the text's end, trimmed.
    pub fn read_remaining_line(&mut self) -> (r: Result<String, Error>)
        requires
            old(self).wf(),
        ensures
            final(self).wf(),
            final(self)@.text == old(self)@.text,
            r matches Ok(s) && s@ == trimmed(
                remaining_line_at(old(self)@.text, old(self)@.pos).line,
            ),
            final(self)@.pos == remaining_line_at(old(self)@.text, old(self)@.pos).end,
    {
        let v = self.take_line();
        Ok(string_from_chars(&v))
    }
}

/// The text that skipping a comment from `p` to its closing at `ce`
/// captures.
pub open spec fn comment_interior(t: Seq<char>, p: int, ce: int) -> Seq<char> {
    if ce - 1 >= p + 2 {
        t.subrange(p + 2, ce - 1)
    } else {
        Seq::empty()
    }
}

/// Finds the first comment closing at or after `from`.
fn find_comment_close(s: &Vec<char>, from: usize) -> (r: Option<usize>)
    requires
        from <= s@.len(),
    ensures
        match r {
            Some(e) => comment_close_from(s@, from as int) == Some(e as int) && from <= e && e + 1
                < s@.len(),
            None => comment_close_from(s@, from as int) is None,
        },
{
    let mut q = from;
    loop
        invariant
            from <= q <= s@.len(),
            comment_close_from(s@, from as int) == comment_close_from(s@, q as int),
        decreases s@.len() - q,
    {
        if s.len() - q <= 1 {
            return None;
        }
        if s[q] == '*' && s[q + 1] == '/' {
            return Some(q);
        }
        q = q + 1;
    }
}

/// The failure kinds of the composite readers, mirrored at the spec level.
pub enum FailureKind {
    Eof,
    Syntax,
    Programming,
    InvalidType,
}

/// The error value `e` is of the kind `k`.
pub open spec fn error_has_kind(e: Error, k: FailureKind) -> bool {
    match k {
        FailureKind::Eof => e is Eof,
        FailureKind::Syntax => e is Syntax,
        FailureKind::Programming => e is Programming,
        FailureKind::InvalidType => e is InvalidType,
    }
}

/// What accumulating a value over its continuation lines yields: the value
/// text, the stop position, and whether the read ran off the text's end.
pub struct ValueOutcome {
    pub value: Seq<char>,
    pub end: int,
    pub eof_error: bool,
}

/// Value accumulation from a candidate continuation position: while a
/// continuation line starts at the cursor, its remainder is read, trimmed
/// and appended with no separator. Stepping past the text's end while
/// moving to the next line is a failure.
pub open spec fn read_value_at(t: Seq<char>, p: int, acc: Seq<char>) -> ValueOutcome
    decreases t.len() - p
        when 0 <= p <= t.len()
        via read_value_at_dec
{
    if !continuation_at(t, p) {
        ValueOutcome { value: acc, end: p, eof_error: false }
    } else {
        let l = remaining_line_at(t, p);
        let acc2 = acc + trimmed(l.line);
        if l.end >= t.len() - 1 {
            ValueOutcome { value: acc2, end: t.len() as int, eof_error: true }
        } else {
            read_value_at(t, l.end + 1, acc2)
        }
    }
}

#[via_fn]
proof fn read_value_at_dec(t: Seq<char>, p: int, acc: Seq<char>) {
    if continuation_at(t, p) {
        lemma_remaining_line_at(t, p);
    }
}

pub proof fn lemma_read_value_at(t: Seq<char>, p: int, acc: Seq<char>)
    requires
        0 <= p <= t.len(),
    ensures
        p <= read_value_at(t, p, acc).end <= t.len(),
    decreases t.len() - p,
{
    if continuation_at(t, p) {
        lemma_remaining_line_at(t, p);
        let l = remaining_line_at(t, p);
        if l.end < t.len() - 1 {
            lemma_read_value_at(t, l.end + 1, acc + trimmed(l.line));
        }
    }
}

/// Continuation merging: when a continuation line starts at `p` and the
/// line after it does not continue further, the accumulated value is the
/// text so far concatenated with the continuation line's trimmed
/// remainder, with no separator between them.
pub proof fn lemma_continuation_merges_once(t: Seq<char>, p: int, acc: Seq<char>)
    requires
        0 <= p <= t.len(),
        continuation_at(t, p),
        remaining_line_at(t, p).end < t.len() - 1,
        !continuation_at(t, remaining_line_at(t, p).end + 1),
    ensures
        read_value_at(t, p, acc) == (ValueOutcome {
            value: acc + trimmed(remaining_line_at(t, p).line),
            end: remaining_line_at(t, p).end + 1,
            eof_error: false,
        }),
{
    lemma_remaining_line_at(t, p);
    let l = remaining_line_at(t, p);
    let acc2 = acc + trimmed(l.line);
    assert(read_value_at(t, l.end + 1, acc2) == (ValueOutcome {
        value: acc2,
        end: l.end + 1,
        eof_error: false,
    }));
}

/// What reading one key-value pair yields: the key symbol, the value text,
/// the stop position, and the failure kind if the read failed.
pub struct KeyValueOutcome {
    pub key: SymbolModel,
    pub value: Seq<char>,
    pub end: int,
    pub err: Option<FailureKind>,
}

/// Reading one key-value pair from `p`: the symbol up to the `=`, then the
/// line's remainder and every continuation line, trimmed and concatenated.
/// On a continuation line the read is a syntax error; away from a line
/// start it is a programming error; running off the text's end while
/// stepping to the next line loses the pair.
pub open spec fn read_key_value_at(t: Seq<char>, p: int) -> KeyValueOutcome {
    if continuation_at(t, p) {
        KeyValueOutcome {
            key: arbitrary(),
            value: arbitrary(),
            end: p,
            err: Some(FailureKind::Syntax),
        }
    } else if !line_start_at(t, p) {
        KeyValueOutcome {
            key: arbitrary(),
            value: arbitrary(),
            end: p,
            err: Some(FailureKind::Programming),
        }
    } else {
        let sym = read_symbol_at(t, p);
        let l = remaining_line_at(t, symbol_stop(t, p));
        if l.end >= t.len() - 1 {
            KeyValueOutcome {
                key: sym,
                value: arbitrary(),
                end: t.len() as int,
                err: Some(FailureKind::Eof),
            }
        } else {
            let v = read_value_at(t, l.end + 1, trimmed(l.line));
            if v.eof_error {
                KeyValueOutcome {
                    key: sym,
                    value: arbitrary(),
                    end: t.len() as int,
                    err: Some(FailureKind::Eof),
                }
            } else {
                KeyValueOutcome { key: sym, value: v.value, end: v.end, err: None }
            }
        }
    }
}

pub proof fn lemma_read_key_value_at(t: Seq<char>, p: int)
    requires
        0 <= p <= t.len(),
    ensures
        ({
            let o = read_key_value_at(t, p);
            &&& 0 <= o.end <= t.len()
            &&& (o.err is None ==> p < o.end)
            &&& (o.err matches Some(k) ==> if k is Eof {
                o.end == t.len()
            } else {
                o.end == p
            })
        }),
{
    if !continuation_at(t, p) && line_start_at(t, p) {
        crate::chars::lemma_run_end(t, p, CharClass::SymbolChar);
        let stop = symbol_stop(t, p);
        lemma_remaining_line_at(t, stop);
        let l = remaining_line_at(t, stop);
        if l.end < t.len() - 1 {
            lemma_read_value_at(t, l.end + 1, trimmed(l.line));
        }
    }
}

impl PvlReader {
    /// Reads the key-value pair of the line under the cursor, merging every
    /// continuation line into the value.
    #[verifier::loop_isolation(false)]
    pub fn read_key_value_pair_raw(&mut self) -> (r: Result<KeyValuePair, Error>)
        requires
            old(self).wf(),
        ensures
            final(self).wf(),
            final(self)@.text == old(self)@.text,
            ({
                let o = read_key_value_at(old(self)@.text, old(self)@.pos);
                &&& final(self)@.pos == o.end
                &&& match o.err {
                    None => r matches Ok(kvp) && kvp@.key == o.key && kvp@.value.raw == o.value
                        && kvp@.value.vtype == inferred_type(o.value),
                    Some(k) => r matches Err(e) && error_has_kind(e, k),
                }
            }),
    {
        let ghost t = self@.text;
        let ghost p0 = self@.pos;
        let cont = match self.is_at_value_line_continuation() {
            Ok(b) => b,
            Err(_) => false,
        };
        if cont {
            return Err(
                Error::Syntax(
                    String::from_str(
                        "Value line continuation without a preceeding key value pair",
                    ),
                ),
            );
        }
        let ls = match self.is_at_line_start() {
            Ok(b) => b,
            Err(e) => { return Err(e) },
        };
        if !ls {
            return Err(
                Error::Programming(
                    String::from_str(
                        "Attempt to read a key value pair when not at beginning of a line",
                    ),
                ),
            );
        }
        let key = match self.read_symbol() {
            Ok(k) => k,
            Err(e) => { return Err(e) },
        };
        let mut value_chars = self.take_line();
        if let Err(e) = self.next_char() {
            return Err(e);
        }
        let ghost p1 = self@.pos;
        let ghost acc1 = value_chars@;
        let mut done = false;
        while !done
            invariant
                self.wf(),
                self@.text == t,
                0 <= p1 <= t.len(),
                !done ==> read_value_at(t, p1, acc1) == read_value_at(t, self@.pos, value_chars@),
                done ==> !read_value_at(t, p1, acc1).eof_error && self@.pos == read_value_at(
                    t,
                    p1,
                    acc1,
                ).end && value_chars@ == read_value_at(t, p1, acc1).value,
            decreases (if done {
                0int
            } else {
                1int
            }), t.len() - self@.pos,
        {
            let ghost p = self@.pos;
            let ghost accp = value_chars@;
            let contr = self.is_at_value_line_continuation();
            let contb = match contr {
                Ok(b) => b,
                Err(_) => false,
            };
            if !contb {
                done = true;
            } else {
                proof {
                    lemma_remaining_line_at(t, p);
                }
                let ghost l = remaining_line_at(t, p);
                let mut lv = self.take_line();
                value_chars.append(&mut lv);
                if let Err(e) = self.next_char() {
                    proof {
                        assert(self@.pos == t.len());
                        assert(l.end >= t.len() - 1);
                        assert(read_value_at(t, p, accp).eof_error);
                        assert(read_value_at(t, p1, acc1).eof_error);
                    }
                    return Err(e);
                }
                proof {
                    assert(l.end < t.len() - 1);
                    assert(value_chars@ == accp + trimmed(l.line));
                    assert(read_value_at(t, p, accp) == read_value_at(t, l.end + 1, accp + trimmed(
                        l.line,
                    )));
                }
            }
        }
        let value = Value::from_chars(&value_chars);
        Ok(KeyValuePair { key, value })
    }
}

/// What collecting a block's property lines yields.
pub struct GroupBodyOutcome {
    pub properties: Seq<KeyValuePairModel>,
    pub end: int,
    pub err: Option<FailureKind>,
}

/// Collecting the property lines of a `GROUP` or `OBJECT` block from `p`:
/// blank lines are skipped whole; other lines are read as key-value pairs
/// until the matching end keyword, which is consumed and not stored, or
/// until the text runs out. Skipping a blank line off the text's end is a
/// failure.
pub open spec fn group_body_at(
    t: Seq<char>,
    p: int,
    acc: Seq<KeyValuePairModel>,
    object: bool,
) -> GroupBodyOutcome
    decreases t.len() - p
        when 0 <= p <= t.len()
        via group_body_at_dec
{
    if p >= t.len() {
        GroupBodyOutcome { properties: acc, end: p, err: None }
    } else if !line_start_at(t, p) {
        GroupBodyOutcome { properties: acc, end: p, err: Some(FailureKind::Programming) }
    } else if blank_line_at(t, p) {
        let le = run_end(t, p, CharClass::NotNewline);
        if le >= t.len() - 1 {
            GroupBodyOutcome { properties: acc, end: t.len() as int, err: Some(FailureKind::Eof) }
        } else {
            group_body_at(t, le + 1, acc, object)
        }
    } else {
        let kv = read_key_value_at(t, p);
        match kv.err {
            Some(k) => GroupBodyOutcome { properties: acc, end: kv.end, err: Some(k) },
            None => if (object && kv.key is ObjectEnd) || (!object && kv.key is GroupEnd) {
                GroupBodyOutcome { properties: acc, end: kv.end, err: None }
            } else {
                group_body_at(
                    t,
                    kv.end,
                    acc.push(
                        KeyValuePairModel {
                            key: kv.key,
                            value: ValueModel { raw: kv.value, vtype: inferred_type(kv.value) },
                        },
                    ),
                    object,
                )
            },
        }
    }
}

#[via_fn]
proof fn group_body_at_dec(t: Seq<char>, p: int, acc: Seq<KeyValuePairModel>, object: bool) {
    if 0 <= p < t.len() && line_start_at(t, p) {
        if blank_line_at(t, p) {
            crate::chars::lemma_run_end(t, p, CharClass::NotNewline);
        } else {
            lemma_read_key_value_at(t, p);
        }
    }
}

pub proof fn lemma_group_body_at(t: Seq<char>, p: int, acc: Seq<KeyValuePairModel>, object: bool)
    requires
        0 <= p <= t.len(),
    ensures
        p <= group_body_at(t, p, acc, object).end <= t.len(),
    decreases t.len() - p,
{
    if p < t.len() && line_start_at(t, p) {
        if blank_line_at(t, p) {
            crate::chars::lemma_run_end(t, p, CharClass::NotNewline);
            let le = run_end(t, p, CharClass::NotNewline);
            if le < t.len() - 1 {
                lemma_group_body_at(t, le + 1, acc, object);
            }
        } else {
            lemma_read_key_value_at(t, p);
            let kv = read_key_value_at(t, p);
            if kv.err is None && !((object && kv.key is ObjectEnd) || (!object
                && kv.key is GroupEnd)) {
                lemma_group_body_at(
                    t,
                    kv.end,
                    acc.push(
                        KeyValuePairModel {
                            key: kv.key,
                            value: ValueModel { raw: kv.value, vtype: inferred_type(kv.value) },
                        },
                    ),
                    object,
                );
            }
        }
    }
}

/// What reading a whole block yields: its name, its properties, the stop
/// position, and the failure kind if the read failed.
pub struct GroupOutcome {
    pub name: Seq<char>,
    pub properties: Seq<KeyValuePairModel>,
    pub end: int,
    pub err: Option<FailureKind>,
}

/// Reading a `GROUP` or `OBJECT` block from `p`: the declaration line's
/// value, reinterpreted as a flag, names the block; the following lines
/// fill it until the matching end keyword. A `GROUP` must stand at a line
/// start; an `OBJECT` is only checked for its keyword.
pub open spec fn read_group_at(t: Seq<char>, p: int, object: bool) -> GroupOutcome {
    if p >= t.len() {
        GroupOutcome { name: arbitrary(), properties: arbitrary(), end: p, err: Some(
            FailureKind::Eof,
        ) }
    } else if !(if object {
        object_keyword_at(t, p)
    } else {
        group_keyword_at(t, p) && line_start_at(t, p)
    }) {
        GroupOutcome { name: arbitrary(), properties: arbitrary(), end: p, err: Some(
            FailureKind::Programming,
        ) }
    } else {
        let kv = read_key_value_at(t, p);
        match kv.err {
            Some(k) => GroupOutcome { name: arbitrary(), properties: arbitrary(), end: kv.end,
                err: Some(k) },
            None => {
                let vt = inferred_type(kv.value);
                if vt != ValueType::Flag && vt != ValueType::Undetermined {
                    GroupOutcome { name: arbitrary(), properties: arbitrary(), end: kv.end,
                        err: Some(FailureKind::InvalidType) }
                } else {
                    let b = group_body_at(t, kv.end, Seq::empty(), object);
                    GroupOutcome { name: kv.value, properties: b.properties, end: b.end,
                        err: b.err }
                }
            },
        }
    }
}

impl PvlReader {
    /// Reads the `GROUP ... END_GROUP` block under the cursor.
    #[verifier::loop_isolation(false)]
    pub fn read_group(&mut self) -> (r: Result<Group, Error>)
        requires
            old(self).wf(),
        ensures
            final(self).wf(),
            final(self)@.text == old(self)@.text,
            ({
                let o = read_group_at(old(self)@.text, old(self)@.pos, false);
                &&& final(self)@.pos == o.end
                &&& match o.err {
                    None => r matches Ok(g) && g.name@ == o.name && g.properties@.map_values(
                        |q: KeyValuePair| q@,
                    ) == o.properties,
                    Some(k) => r matches Err(e) && error_has_kind(e, k),
                }
            }),
    {
        let ghost t = self@.text;
        if self.is_eof() {
            return Err(Error::Eof);
        }
        let at = match self.is_at_group() {
            Ok(b) => b,
            Err(e) => { return Err(e) },
        };
        if !at {
            return Err(
                Error::Programming(
                    String::from_str("Attempted to read a group when not at a group start"),
                ),
            );
        }
        let start = match self.read_key_value_pair_raw() {
            Ok(kv) => kv,
            Err(e) => { return Err(e) },
        };
        let name = match start.value.parse_flag() {
            Ok(n) => n,
            Err(e) => { return Err(e) },
        };
        let properties = self.read_block_body(false)?;
        Ok(Group { name, properties })
    }

    /// Reads the `OBJECT ... END_OBJECT` block under the cursor.
    #[verifier::loop_isolation(false)]
    pub fn read_object(&mut self) -> (r: Result<Object, Error>)
        requires
            old(self).wf(),
        ensures
            final(self).wf(),
            final(self)@.text == old(self)@.text,
            ({
                let o = read_group_at(old(self)@.text, old(self)@.pos, true);
                &&& final(self)@.pos == o.end
                &&& match o.err {
                    None => r matches Ok(g) && g.name@ == o.name && g.properties@.map_values(
                        |q: KeyValuePair| q@,
                    ) == o.properties,
                    Some(k) => r matches Err(e) && error_has_kind(e, k),
                }
            }),
    {
        let ghost t = self@.text;
        if self.is_eof() {
            return Err(Error::Eof);
        }
        let at = match self.is_at_object() {
            Ok(b) => b,
            Err(e) => { return Err(e) },
        };
        if !at {
            return Err(
                Error::Programming(
                    String::from_str("Attempted to read an object when not at an object start"),
                ),
            );
        }
        let start = match self.read_key_value_pair_raw() {
            Ok(kv) => kv,
            Err(e) => { return Err(e) },
        };
        let name = match start.value.parse_flag() {
            Ok(n) => n,
            Err(e) => { return Err(e) },
        };
        let properties = self.read_block_body(true)?;
        Ok(Object { name, properties })
    }

    /// Collects a block's property lines until its end keyword.
    #[verifier::loop_isolation(false)]
    fn read_block_body(&mut self, object: bool) -> (r: Result<Vec<KeyValuePair>, Error>)
        requires
            old(self).wf(),
        ensures
            final(self).wf(),
            final(self)@.text == old(self)@.text,
            ({
                let b = group_body_at(old(self)@.text, old(self)@.pos, Seq::empty(), object);
                &&& final(self)@.pos == b.end
                &&& match b.err {
                    None => r matches Ok(ps) && ps@.map_values(|q: KeyValuePair| q@)
                        == b.properties,
                    Some(k) => r matches Err(e) && error_has_kind(e, k),
                }
            }),
    {
        let ghost t = self@.text;
        let ghost pb = self@.pos;
        let mut properties: Vec<KeyValuePair> = Vec::new();
        proof {
            assert(properties@.map_values(|q: KeyValuePair| q@) =~= Seq::<
                KeyValuePairModel,
            >::empty());
        }
        let mut done = false;
        while !done
            invariant
                self.wf(),
                self@.text == t,
                0 <= pb <= t.len(),
                !done ==> group_body_at(t, pb, Seq::empty(), object) == group_body_at(
                    t,
                    self@.pos,
                    properties@.map_values(|q: KeyValuePair| q@),
                    object,
                ),
                done ==> ({
                    let b = group_body_at(t, pb, Seq::empty(), object);
                    &&& b.err is None
                    &&& self@.pos == b.end
                    &&& properties@.map_values(|q: KeyValuePair| q@) == b.properties
                }),
            decreases (if done {
                0int
            } else {
                1int
            }), t.len() - self@.pos,
        {
            let ghost p = self@.pos;
            let ghost accp = properties@.map_values(|q: KeyValuePair| q@);
            if self.is_eof() {
                done = true;
            } else {
                let blank = match self.is_blank_line() {
                    Ok(b) => b,
                    Err(e) => { return Err(e) },
                };
                if blank {
                    proof {
                        crate::chars::lemma_run_end(t, p, CharClass::NotNewline);
                    }
                    self.advance_to_line_end();
                    if let Err(e) = self.next_char() {
                        return Err(e);
                    }
                } else {
                    let kv = match self.read_key_value_pair_raw() {
                        Ok(kv) => kv,
                        Err(e) => { return Err(e) },
                    };
                    proof {
                        lemma_read_key_value_at(t, p);
                    }
                    let is_end = match &kv.key {
                        Symbol::GroupEnd => !object,
                        Symbol::ObjectEnd => object,
                        _ => false,
                    };
                    if is_end {
                        done = true;
                    } else {
                        let ghost kvm = kv@;
                        properties.push(kv);
                        proof {
                            assert(properties@.map_values(|q: KeyValuePair| q@) =~= accp.push(
                                kvm,
                            ));
                        }
                    }
                }
            }
        }
        Ok(properties)
    }
}

pub proof fn lemma_read_group_at(t: Seq<char>, p: int, object: bool)
    requires
        0 <= p <= t.len(),
    ensures
        read_group_at(t, p, object).err is None ==> p < read_group_at(t, p, object).end <= t.len(),
{
    let o = read_group_at(t, p, object);
    if o.err is None {
        lemma_read_key_value_at(t, p);
        let kv = read_key_value_at(t, p);
        lemma_group_body_at(t, kv.end, Seq::empty(), object);
    }
}

/// The beginning of the line that `p` stands on: the nearest line start at
/// or before it.
pub open spec fn line_begin(t: Seq<char>, p: int) -> int
    decreases p
        when 0 <= p
{
    if p == 0 || t[p - 1] == '\n' || t[p - 1] == '\r' {
        p
    } else {
        line_begin(t, p - 1)
    }
}

} // verus!
