//! Typed right-hand values of a PVL label.
//!
//! A value is the raw text to the right of a key's `=`, together with the
//! type inferred from it at construction. Inference runs a fixed ordered
//! list of patterns; the first match decides, and the type is never
//! re-inferred. Typed accessors succeed only when the stored type is
//! `Undetermined` (best effort) or matches the request.

use vstd::prelude::*;

use crate::chars::CharClass;
use crate::numparse::{
    bool_from_text, parse_bool_text, parse_sint_text, parse_uint_text, sint_from_text,
    uint_from_text,
};
use crate::text::{chars_of, split_on_class, split_range_on_class, string_from_chars};
use crate::typing::{
    array_pattern, array_pattern_exec, bitmask_pattern, bitmask_pattern_exec, bool_pattern,
    bool_pattern_exec, flag_pattern, flag_pattern_exec, float_pattern, float_pattern_exec,
    integer_pattern, integer_pattern_exec, string_pattern, string_pattern_exec,
    without_surrounding_quotes, without_surrounding_quotes_exec,
};
use super::error::Error;

verus! {

/// PVL measurement units.
#[derive(Debug, Clone, Eq, PartialEq)]
pub enum ValueUnits {
    Celcius,
    Farenheit,
    Degrees,
    Radians,
    Milliseconds,
    Seconds,
}

/// The type inferred for a raw right-hand fragment.
#[derive(Debug, Eq, PartialEq, Copy, Clone, Structural)]
pub enum ValueType {
    /// No pattern matched.
    Undetermined,
    /// The whole fragment is parenthesized.
    Array,
    /// Quoted text.
    String,
    /// Digits with a decimal point.
    Float,
    /// Digits without one.
    Integer,
    /// A quoted `TRUE` or `FALSE`.
    Bool,
    /// A bare unquoted identifier.
    Flag,
    /// A `<radix>#<bits>#` fragment.
    BitMask,
}

/// Which type the ordered pattern list infers for a raw fragment. This
/// dialect knows only double quotes.
pub open spec fn inferred_type(s: Seq<char>) -> ValueType {
    if bool_pattern(s, false) {
        ValueType::Bool
    } else if string_pattern(s, false) {
        ValueType::String
    } else if array_pattern(s) {
        ValueType::Array
    } else if float_pattern(s) {
        ValueType::Float
    } else if bitmask_pattern(s) {
        ValueType::BitMask
    } else if integer_pattern(s) {
        ValueType::Integer
    } else if flag_pattern(s) {
        ValueType::Flag
    } else {
        ValueType::Undetermined
    }
}

/// The mathematical shape of a `Value`: its raw text and inferred type.
pub struct ValueModel {
    pub raw: Seq<char>,
    pub vtype: ValueType,
}

/// A raw right-hand fragment and the type inferred for it at construction.
#[derive(Debug)]
pub struct Value {
    value_raw: String,
    value_type: ValueType,
}

impl View for Value {
    type V = ValueModel;

    closed spec fn view(&self) -> ValueModel {
        ValueModel { raw: self.value_raw@, vtype: self.value_type }
    }
}

impl Value {
    /// The stored type is the one inferred from the stored raw text. Every
    /// value the library hands out satisfies this.
    pub open spec fn wf(&self) -> bool {
        self@.vtype == inferred_type(self@.raw)
    }

    /// Constructs a value over the given raw fragment, inferring its type.
    pub fn new(value_raw: &str) -> (r: Value)
        ensures
            r@.raw == value_raw@,
            r@.vtype == inferred_type(value_raw@),
            r.wf(),
    {
        let chars = chars_of(value_raw);
        Value::from_chars(&chars)
    }

    /// Constructs a value over the fragment given as characters.
    pub(crate) fn from_chars(chars: &Vec<char>) -> (r: Value)
        ensures
            r@.raw == chars@,
            r@.vtype == inferred_type(chars@),
            r.wf(),
    {
        let t = Value::determine_type(chars);
        Value { value_raw: string_from_chars(chars), value_type: t }
    }

    /// Runs the ordered pattern list over the fragment.
    fn determine_type(chars: &Vec<char>) -> (t: ValueType)
        ensures
            t == inferred_type(chars@),
    {
        if bool_pattern_exec(chars, false) {
            ValueType::Bool
        } else if string_pattern_exec(chars, false) {
            ValueType::String
        } else if array_pattern_exec(chars) {
            ValueType::Array
        } else if float_pattern_exec(chars) {
            ValueType::Float
        } else if bitmask_pattern_exec(chars) {
            ValueType::BitMask
        } else if integer_pattern_exec(chars) {
            ValueType::Integer
        } else if flag_pattern_exec(chars) {
            ValueType::Flag
        } else {
            ValueType::Undetermined
        }
    }

    /// The type inferred at construction.
    pub fn value_type(&self) -> (t: ValueType)
        ensures
            t == self@.vtype,
    {
        self.value_type
    }

    /// The raw fragment itself, as stored.
    pub fn raw_text(&self) -> (r: &str)
        ensures
            r@ == self@.raw,
    {
        self.value_raw.as_str()
    }

    /// The stored type may be parsed as `want`: it is undetermined or
    /// matches.
    pub open spec fn type_admits(&self, want: ValueType) -> bool {
        self@.vtype == ValueType::Undetermined || self@.vtype == want
    }

    fn gate(&self, want: ValueType) -> (r: bool)
        ensures
            r == self.type_admits(want),
    {
        self.value_type == ValueType::Undetermined || self.value_type == want
    }

    pub fn parse_u8(&self) -> (r: Result<u8, Error>)
        ensures
            match r {
                Ok(v) => self.type_admits(ValueType::Integer) && uint_from_text(
                    self@.raw,
                    u8::MAX as int,
                ) == Some(v as int),
                Err(e) => (!self.type_admits(ValueType::Integer) && e is InvalidType) || (
                self.type_admits(ValueType::Integer) && uint_from_text(self@.raw, u8::MAX as int)
                    is None && e is ValueTypeParseError),
            },
    {
        if !self.gate(ValueType::Integer) {
            Err(Error::InvalidType)
        } else {
            let chars = chars_of(self.value_raw.as_str());
            match parse_uint_text(&chars, 255) {
                Some(v) => Ok(v as u8),
                None => Err(Error::ValueTypeParseError),
            }
        }
    }

    pub fn parse_u16(&self) -> (r: Result<u16, Error>)
        ensures
            match r {
                Ok(v) => self.type_admits(ValueType::Integer) && uint_from_text(
                    self@.raw,
                    u16::MAX as int,
                ) == Some(v as int),
                Err(e) => (!self.type_admits(ValueType::Integer) && e is InvalidType) || (
                self.type_admits(ValueType::Integer) && uint_from_text(self@.raw, u16::MAX as int)
                    is None && e is ValueTypeParseError),
            },
    {
        if !self.gate(ValueType::Integer) {
            Err(Error::InvalidType)
        } else {
            let chars = chars_of(self.value_raw.as_str());
            match parse_uint_text(&chars, 65535) {
                Some(v) => Ok(v as u16),
                None => Err(Error::ValueTypeParseError),
            }
        }
    }

    pub fn parse_u32(&self) -> (r: Result<u32, Error>)
        ensures
            match r {
                Ok(v) => self.type_admits(ValueType::Integer) && uint_from_text(
                    self@.raw,
                    u32::MAX as int,
                ) == Some(v as int),
                Err(e) => (!self.type_admits(ValueType::Integer) && e is InvalidType) || (
                self.type_admits(ValueType::Integer) && uint_from_text(self@.raw, u32::MAX as int)
                    is None && e is ValueTypeParseError),
            },
    {
        if !self.gate(ValueType::Integer) {
            Err(Error::InvalidType)
        } else {
            let chars = chars_of(self.value_raw.as_str());
            match parse_uint_text(&chars, 0xffff_ffff) {
                Some(v) => Ok(v as u32),
                None => Err(Error::ValueTypeParseError),
            }
        }
    }

    pub fn parse_u64(&self) -> (r: Result<u64, Error>)
        ensures
            match r {
                Ok(v) => self.type_admits(ValueType::Integer) && uint_from_text(
                    self@.raw,
                    u64::MAX as int,
                ) == Some(v as int),
                Err(e) => (!self.type_admits(ValueType::Integer) && e is InvalidType) || (
                self.type_admits(ValueType::Integer) && uint_from_text(self@.raw, u64::MAX as int)
                    is None && e is ValueTypeParseError),
            },
    {
        if !self.gate(ValueType::Integer) {
            Err(Error::InvalidType)
        } else {
            let chars = chars_of(self.value_raw.as_str());
            match parse_uint_text(&chars, u64::MAX) {
                Some(v) => Ok(v),
                None => Err(Error::ValueTypeParseError),
            }
        }
    }

    pub fn parse_usize(&self) -> (r: Result<usize, Error>)
        ensures
            match r {
                Ok(v) => self.type_admits(ValueType::Integer) && uint_from_text(
                    self@.raw,
                    usize::MAX as int,
                ) == Some(v as int),
                Err(e) => (!self.type_admits(ValueType::Integer) && e is InvalidType) || (
                self.type_admits(ValueType::Integer) && uint_from_text(
                    self@.raw,
                    usize::MAX as int,
                ) is None && e is ValueTypeParseError),
            },
    {
        if !self.gate(ValueType::Integer) {
            Err(Error::InvalidType)
        } else {
            let chars = chars_of(self.value_raw.as_str());
            match parse_uint_text(&chars, usize::MAX as u64) {
                Some(v) => Ok(v as usize),
                None => Err(Error::ValueTypeParseError),
            }
        }
    }

    pub fn parse_i8(&self) -> (r: Result<i8, Error>)
        ensures
            match r {
                Ok(v) => self.type_admits(ValueType::Integer) && sint_from_text(
                    self@.raw,
                    i8::MIN as int,
                    i8::MAX as int,
                ) == Some(v as int),
                Err(e) => (!self.type_admits(ValueType::Integer) && e is InvalidType) || (
                self.type_admits(ValueType::Integer) && sint_from_text(
                    self@.raw,
                    i8::MIN as int,
                    i8::MAX as int,
                ) is None && e is ValueTypeParseError),
            },
    {
        if !self.gate(ValueType::Integer) {
            Err(Error::InvalidType)
        } else {
            let chars = chars_of(self.value_raw.as_str());
            match parse_sint_text(&chars, 127) {
                Some((neg, mag)) => {
                    if neg {
                        if mag == 128 {
                            Ok(i8::MIN)
                        } else {
                            Ok(-(mag as i8))
                        }
                    } else {
                        Ok(mag as i8)
                    }
                },
                None => Err(Error::ValueTypeParseError),
            }
        }
    }

    pub fn parse_i16(&self) -> (r: Result<i16, Error>)
        ensures
            match r {
                Ok(v) => self.type_admits(ValueType::Integer) && sint_from_text(
                    self@.raw,
                    i16::MIN as int,
                    i16::MAX as int,
                ) == Some(v as int),
                Err(e) => (!self.type_admits(ValueType::Integer) && e is InvalidType) || (
                self.type_admits(ValueType::Integer) && sint_from_text(
                    self@.raw,
                    i16::MIN as int,
                    i16::MAX as int,
                ) is None && e is ValueTypeParseError),
            },
    {
        if !self.gate(ValueType::Integer) {
            Err(Error::InvalidType)
        } else {
            let chars = chars_of(self.value_raw.as_str());
            match parse_sint_text(&chars, 32767) {
                Some((neg, mag)) => {
                    if neg {
                        if mag == 32768 {
                            Ok(i16::MIN)
                        } else {
                            Ok(-(mag as i16))
                        }
                    } else {
                        Ok(mag as i16)
                    }
                },
                None => Err(Error::ValueTypeParseError),
            }
        }
    }

    pub fn parse_i32(&self) -> (r: Result<i32, Error>)
        ensures
            match r {
                Ok(v) => self.type_admits(ValueType::Integer) && sint_from_text(
                    self@.raw,
                    i32::MIN as int,
                    i32::MAX as int,
                ) == Some(v as int),
                Err(e) => (!self.type_admits(ValueType::Integer) && e is InvalidType) || (
                self.type_admits(ValueType::Integer) && sint_from_text(
                    self@.raw,
                    i32::MIN as int,
                    i32::MAX as int,
                ) is None && e is ValueTypeParseError),
            },
    {
        if !self.gate(ValueType::Integer) {
            Err(Error::InvalidType)
        } else {
            let chars = chars_of(self.value_raw.as_str());
            match parse_sint_text(&chars, 0x7fff_ffff) {
                Some((neg, mag)) => {
                    if neg {
                        if mag == 0x8000_0000 {
                            Ok(i32::MIN)
                        } else {
                            Ok(-(mag as i32))
                        }
                    } else {
                        Ok(mag as i32)
                    }
                },
                None => Err(Error::ValueTypeParseError),
            }
        }
    }

    pub fn parse_i64(&self) -> (r: Result<i64, Error>)
        ensures
            match r {
                Ok(v) => self.type_admits(ValueType::Integer) && sint_from_text(
                    self@.raw,
                    i64::MIN as int,
                    i64::MAX as int,
                ) == Some(v as int),
                Err(e) => (!self.type_admits(ValueType::Integer) && e is InvalidType) || (
                self.type_admits(ValueType::Integer) && sint_from_text(
                    self@.raw,
                    i64::MIN as int,
                    i64::MAX as int,
                ) is None && e is ValueTypeParseError),
            },
    {
        if !self.gate(ValueType::Integer) {
            Err(Error::InvalidType)
        } else {
            let chars = chars_of(self.value_raw.as_str());
            match parse_sint_text(&chars, 0x7fff_ffff_ffff_ffff) {
                Some((neg, mag)) => {
                    if neg {
                        if mag == 0x8000_0000_0000_0000 {
                            Ok(i64::MIN)
                        } else {
                            Ok(-(mag as i64))
                        }
                    } else {
                        Ok(mag as i64)
                    }
                },
                None => Err(Error::ValueTypeParseError),
            }
        }
    }

    pub fn parse_bool(&self) -> (r: Result<bool, Error>)
        ensures
            match r {
                Ok(v) => self.type_admits(ValueType::Bool) && bool_from_text(self@.raw) == Some(v),
                Err(e) => (!self.type_admits(ValueType::Bool) && e is InvalidType) || (
                self.type_admits(ValueType::Bool) && bool_from_text(self@.raw) is None
                    && e is ValueTypeParseError),
            },
    {
        if !self.gate(ValueType::Bool) {
            Err(Error::InvalidType)
        } else {
            let chars = chars_of(self.value_raw.as_str());
            match parse_bool_text(&chars) {
                Some(v) => Ok(v),
                None => Err(Error::ValueTypeParseError),
            }
        }
    }

    /// The raw fragment itself, for flag values.
    pub fn parse_flag(&self) -> (r: Result<String, Error>)
        ensures
            match r {
                Ok(v) => self.type_admits(ValueType::Flag) && v@ == self@.raw,
                Err(e) => !self.type_admits(ValueType::Flag) && e is InvalidType,
            },
    {
        if !self.gate(ValueType::Flag) {
            Err(Error::InvalidType)
        } else {
            Ok(self.value_raw.clone())
        }
    }

    /// The raw fragment with its surrounding double quotes removed.
    pub fn parse_string(&self) -> (r: Result<String, Error>)
        ensures
            match r {
                Ok(v) => self.type_admits(ValueType::String) && v@ == without_surrounding_quotes(
                    self@.raw,
                    false,
                ),
                Err(e) => !self.type_admits(ValueType::String) && e is InvalidType,
            },
    {
        if !self.gate(ValueType::String) {
            Err(Error::InvalidType)
        } else {
            let chars = chars_of(self.value_raw.as_str());
            let stripped = without_surrounding_quotes_exec(&chars, false);
            Ok(string_from_chars(&stripped))
        }
    }

    /// The parenthesized fragment's interior, split flat on every comma,
    /// each piece a fresh value with its own inferred type. The split knows
    /// nothing of nested parentheses or quoted commas.
    pub fn parse_array(&self) -> (r: Result<Vec<Value>, Error>)
        requires
            self.wf(),
        ensures
            match r {
                Ok(vs) => self@.vtype == ValueType::Array && {
                    let pieces = split_on_class(
                        self@.raw.subrange(1, self@.raw.len() - 1),
                        CharClass::NotComma,
                    );
                    &&& vs@.len() == pieces.len()
                    &&& forall|i: int|
                        0 <= i < pieces.len() ==> (#[trigger] vs@[i])@.raw == pieces[i]
                            && vs@[i]@.vtype == inferred_type(pieces[i]) && vs@[i].wf()
                },
                Err(e) => self@.vtype != ValueType::Array && e is InvalidType,
            },
    {
        if self.value_type != ValueType::Array {
            Err(Error::InvalidType)
        } else {
            proof {
                assert(array_pattern(self@.raw));
            }
            let chars = chars_of(self.value_raw.as_str());
            let pieces = split_range_on_class_interior(&chars);
            let mut vs: Vec<Value> = Vec::new();
            let mut i: usize = 0;
            let ghost pmodel = split_on_class(
                self@.raw.subrange(1, self@.raw.len() - 1),
                CharClass::NotComma,
            );
            proof {
                assert(pieces@.map_values(|p: Vec<char>| p@) == pmodel);
            }
            loop
                invariant
                    i <= pieces@.len(),
                    pieces@.map_values(|p: Vec<char>| p@) == pmodel,
                    pmodel.len() == pieces@.len(),
                    vs@.len() == i,
                    forall|j: int|
                        0 <= j < i ==> (#[trigger] vs@[j])@.raw == pmodel[j] && vs@[j]@.vtype
                            == inferred_type(pmodel[j]),
                ensures
                    vs@.len() == pmodel.len(),
                    forall|j: int|
                        0 <= j < pmodel.len() ==> (#[trigger] vs@[j])@.raw == pmodel[j]
                            && vs@[j]@.vtype == inferred_type(pmodel[j]),
                decreases pieces@.len() - i,
            {
                if i < pieces.len() {
                    proof {
                        assert(pieces@.map_values(|p: Vec<char>| p@)[i as int] == pieces@[i as int]@);
                    }
                    let v = Value::from_chars(&pieces[i]);
                    vs.push(v);
                    i = i + 1;
                } else {
                    break ;
                }
            }
            Ok(vs)
        }
    }
}

/// Splits the interior of a parenthesized fragment on commas.
fn split_range_on_class_interior(chars: &Vec<char>) -> (r: Vec<Vec<char>>)
    requires
        chars@.len() >= 2,
    ensures
        r@.map_values(|p: Vec<char>| p@) == split_on_class(
            chars@.subrange(1, chars@.len() - 1),
            CharClass::NotComma,
        ),
{
    let interior = crate::text::copy_range(chars, 1, chars.len() - 1);
    let r = split_range_on_class(&interior, 0, CharClass::NotComma);
    proof {
        assert(interior@.subrange(0, interior@.len() as int) =~= interior@);
    }
    r
}

/// Type inference is total and deterministic: every raw fragment maps to
/// exactly one type, and values built over equal raw text always carry the
/// equal type.
pub proof fn lemma_inference_deterministic(a: ValueModel, b: ValueModel)
    requires
        a.vtype == inferred_type(a.raw),
        b.vtype == inferred_type(b.raw),
        a.raw == b.raw,
    ensures
        a.vtype == b.vtype,
{
}

impl Clone for Value {
    /// An equal value.
    fn clone(&self) -> (r: Value)
        ensures
            r@ == self@,
    {
        Value { value_raw: self.value_raw.clone(), value_type: self.value_type }
    }
}

} // verus!
