//! The lexical classification of a line's left-hand token.

use vstd::prelude::*;

verus! {

/// The left-hand token of a label line.
#[derive(Debug)]
pub enum Symbol {
    /// A key that begins with `^`, carrying its text (caret included).
    Pointer(String),
    /// An ordinary key, carrying its text.
    Key(String),
    /// The `GROUP` keyword.
    Group,
    /// The `OBJECT` keyword.
    Object,
    /// A line with no token before the `=`, terminator or end of input.
    BlankLine,
    /// A line that continues the previous value.
    ValueLineContinuation,
    /// The `END_GROUP` keyword.
    GroupEnd,
    /// The `END_OBJECT` keyword.
    ObjectEnd,
    /// The `END` keyword.
    End,
}

/// The mathematical shape of a `Symbol`: the same variants over character
/// sequences.
pub enum SymbolModel {
    Pointer(Seq<char>),
    Key(Seq<char>),
    Group,
    Object,
    BlankLine,
    ValueLineContinuation,
    GroupEnd,
    ObjectEnd,
    End,
}

impl View for Symbol {
    type V = SymbolModel;

    open spec fn view(&self) -> SymbolModel {
        match self {
            Symbol::Pointer(s) => SymbolModel::Pointer(s@),
            Symbol::Key(s) => SymbolModel::Key(s@),
            Symbol::Group => SymbolModel::Group,
            Symbol::Object => SymbolModel::Object,
            Symbol::BlankLine => SymbolModel::BlankLine,
            Symbol::ValueLineContinuation => SymbolModel::ValueLineContinuation,
            Symbol::GroupEnd => SymbolModel::GroupEnd,
            Symbol::ObjectEnd => SymbolModel::ObjectEnd,
            Symbol::End => SymbolModel::End,
        }
    }
}

/// `t` spells the keyword `GROUP`.
pub open spec fn is_group_keyword(t: Seq<char>) -> bool {
    t.len() == 5 && t[0] == 'G' && t[1] == 'R' && t[2] == 'O' && t[3] == 'U' && t[4] == 'P'
}

/// `t` spells the keyword `OBJECT`.
pub open spec fn is_object_keyword(t: Seq<char>) -> bool {
    t.len() == 6 && t[0] == 'O' && t[1] == 'B' && t[2] == 'J' && t[3] == 'E' && t[4] == 'C' && t[5]
        == 'T'
}

/// `t` spells the keyword `END_GROUP`.
pub open spec fn is_group_end_keyword(t: Seq<char>) -> bool {
    t.len() == 9 && t[0] == 'E' && t[1] == 'N' && t[2] == 'D' && t[3] == '_' && t[4] == 'G' && t[5]
        == 'R' && t[6] == 'O' && t[7] == 'U' && t[8] == 'P'
}

/// `t` spells the keyword `END_OBJECT`.
pub open spec fn is_object_end_keyword(t: Seq<char>) -> bool {
    t.len() == 10 && t[0] == 'E' && t[1] == 'N' && t[2] == 'D' && t[3] == '_' && t[4] == 'O' && t[5]
        == 'B' && t[6] == 'J' && t[7] == 'E' && t[8] == 'C' && t[9] == 'T'
}

/// `t` spells the keyword `END`.
pub open spec fn is_end_keyword(t: Seq<char>) -> bool {
    t.len() == 3 && t[0] == 'E' && t[1] == 'N' && t[2] == 'D'
}

/// How a trimmed left-hand token is classified.
pub open spec fn symbol_of_text(t: Seq<char>) -> SymbolModel {
    if t.len() == 0 {
        SymbolModel::BlankLine
    } else if t[0] == '^' {
        SymbolModel::Pointer(t)
    } else if is_group_keyword(t) {
        SymbolModel::Group
    } else if is_object_keyword(t) {
        SymbolModel::Object
    } else if is_group_end_keyword(t) {
        SymbolModel::GroupEnd
    } else if is_object_end_keyword(t) {
        SymbolModel::ObjectEnd
    } else if is_end_keyword(t) {
        SymbolModel::End
    } else {
        SymbolModel::Key(t)
    }
}

/// Classifies a trimmed left-hand token.
pub(crate) fn classify_token(token: Vec<char>) -> (s: Symbol)
    ensures
        s@ == symbol_of_text(token@),
{
    if token.len() == 0 {
        Symbol::BlankLine
    } else if token[0] == '^' {
        Symbol::Pointer(crate::text::string_from_chars(&token))
    } else if token.len() == 5 && token[0] == 'G' && token[1] == 'R' && token[2] == 'O' && token[3]
        == 'U' && token[4] == 'P' {
        Symbol::Group
    } else if token.len() == 6 && token[0] == 'O' && token[1] == 'B' && token[2] == 'J' && token[3]
        == 'E' && token[4] == 'C' && token[5] == 'T' {
        Symbol::Object
    } else if token.len() == 9 && token[0] == 'E' && token[1] == 'N' && token[2] == 'D' && token[3]
        == '_' && token[4] == 'G' && token[5] == 'R' && token[6] == 'O' && token[7] == 'U'
        && token[8] == 'P' {
        Symbol::GroupEnd
    } else if token.len() == 10 && token[0] == 'E' && token[1] == 'N' && token[2] == 'D'
        && token[3] == '_' && token[4] == 'O' && token[5] == 'B' && token[6] == 'J' && token[7]
        == 'E' && token[8] == 'C' && token[9] == 'T' {
        Symbol::ObjectEnd
    } else if token.len() == 3 && token[0] == 'E' && token[1] == 'N' && token[2] == 'D' {
        Symbol::End
    } else {
        Symbol::Key(crate::text::string_from_chars(&token))
    }
}

impl Symbol {
    /// The text of a pointer or key symbol; the other variants carry none.
    pub fn value(&self) -> (r: Option<String>)
        ensures
            match r {
                Some(s) => (self@ matches SymbolModel::Pointer(t) && s@ == t) || (
                self@ matches SymbolModel::Key(t) && s@ == t),
                None => !(self@ is Pointer) && !(self@ is Key),
            },
    {
        match self {
            Symbol::Pointer(v) => Some(v.clone()),
            Symbol::Key(v) => Some(v.clone()),
            _ => None,
        }
    }

    /// An equal symbol.
    pub fn duplicate(&self) -> (r: Symbol)
        ensures
            r@ == self@,
    {
        match self {
            Symbol::Pointer(v) => Symbol::Pointer(v.clone()),
            Symbol::Key(v) => Symbol::Key(v.clone()),
            Symbol::Group => Symbol::Group,
            Symbol::Object => Symbol::Object,
            Symbol::BlankLine => Symbol::BlankLine,
            Symbol::ValueLineContinuation => Symbol::ValueLineContinuation,
            Symbol::GroupEnd => Symbol::GroupEnd,
            Symbol::ObjectEnd => Symbol::ObjectEnd,
            Symbol::End => Symbol::End,
        }
    }
}

impl Clone for Symbol {
    /// An equal symbol.
    fn clone(&self) -> (r: Symbol)
        ensures
            r@ == self@,
    {
        self.duplicate()
    }
}

} // verus!
