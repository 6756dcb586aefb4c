//! The closed enumerations of a VICAR label — pixel format, data type and
//! data organization — and the resolver's error kinds. Each enumeration
//! parses case-insensitively (over ASCII letters) and rejects any other
//! token.

use vstd::prelude::*;

use crate::text::{chars_eq, chars_of, upper, upper_exec};

verus! {

broadcast use vstd::string::group_string_axioms;

/// The resolver's error kinds.
#[derive(Debug)]
pub enum VicarError {
    /// A scan moved past the available text.
    Eof,
    /// Malformed label structure, such as a property without a single `=`.
    Syntax(String),
    /// An operation was invoked in a state its precondition forbids.
    Programming(String),
    /// A typed accessor does not match the value's inferred type.
    InvalidType,
    /// The raw text does not parse as the requested native type.
    ValueTypeParseError,
    /// Text that could not be decoded.
    InvalidEncoding(String),
    /// A wrapped lower-level failure, such as a read past the data's end.
    General(String),
    /// A required label field or object is absent.
    PropertyNotFound(String),
    /// Text that no recognized enumeration token matches.
    UnexpectedEnum(String),
    /// A failure while handling a detached label.
    LabelError(String),
}

/// How one sample of the pixel array is encoded.
#[derive(Debug, Eq, PartialEq, Copy, Clone, Structural)]
pub enum PixelFormat {
    /// One byte, unsigned.
    Byte,
    /// Two bytes, signed.
    Half,
    /// Two bytes, signed; deprecated, parsing routes it to `Half`.
    Word,
    /// Four bytes, signed.
    Full,
    /// Four bytes, signed; deprecated, parsing routes it to `Full`.
    Long,
    /// Single-precision float.
    Real,
    /// Double-precision float.
    Doub,
    /// Two reals in the order (real, imaginary).
    Comp,
    /// Two reals; deprecated, parsing routes it to `Comp`.
    Complex,
}

/// The byte width the addressing engine uses for each format. `Real` and
/// `Doub` report two bytes here although their decodes read four and eight:
/// the stride and the decode width deliberately disagree, as the format's
/// consumers expect.
pub open spec fn width_of(f: PixelFormat) -> int {
    match f {
        PixelFormat::Byte => 1,
        PixelFormat::Half => 2,
        PixelFormat::Word => 2,
        PixelFormat::Full => 4,
        PixelFormat::Long => 4,
        PixelFormat::Real => 2,
        PixelFormat::Doub => 2,
        PixelFormat::Comp => 4,
        PixelFormat::Complex => 4,
    }
}

/// The pixel format a token names, after ASCII upper-casing; the
/// deprecated spellings route to their successors.
pub open spec fn pixel_format_of(s: Seq<char>) -> Option<PixelFormat> {
    let u = upper(s);
    if u == "BYTE"@ {
        Some(PixelFormat::Byte)
    } else if u == "HALF"@ {
        Some(PixelFormat::Half)
    } else if u == "WORD"@ {
        Some(PixelFormat::Half)
    } else if u == "FULL"@ {
        Some(PixelFormat::Full)
    } else if u == "LONG"@ {
        Some(PixelFormat::Full)
    } else if u == "REAL"@ {
        Some(PixelFormat::Real)
    } else if u == "DOUB"@ {
        Some(PixelFormat::Doub)
    } else if u == "COMP"@ {
        Some(PixelFormat::Comp)
    } else if u == "COMPLEX"@ {
        Some(PixelFormat::Comp)
    } else {
        None
    }
}

/// Compares a character vector against a token.
fn token_eq(u: &Vec<char>, lit: &str) -> (r: bool)
    ensures
        r == (u@ == lit@),
{
    let lv = chars_of(lit);
    chars_eq(u, &lv)
}

impl PixelFormat {
    /// The stride in bytes between neighbouring samples of this format.
    pub fn bytes_per_sample(&self) -> (r: usize)
        ensures
            r == width_of(*self),
    {
        match self {
            PixelFormat::Byte => 1,
            PixelFormat::Half => 2,
            PixelFormat::Word => 2,
            PixelFormat::Full => 4,
            PixelFormat::Long => 4,
            PixelFormat::Real => 2,
            PixelFormat::Doub => 2,
            PixelFormat::Comp => 4,
            PixelFormat::Complex => 4,
        }
    }

    /// Parses a format token, case-insensitively.
    pub fn from_string(s: &str) -> (r: Result<PixelFormat, VicarError>)
        ensures
            match r {
                Ok(f) => pixel_format_of(s@) == Some(f),
                Err(e) => pixel_format_of(s@) is None && e is UnexpectedEnum,
            },
    {
        let chars = chars_of(s);
        let u = upper_exec(&chars);
        if token_eq(&u, "BYTE") {
            Ok(PixelFormat::Byte)
        } else if token_eq(&u, "HALF") {
            Ok(PixelFormat::Half)
        } else if token_eq(&u, "WORD") {
            Ok(PixelFormat::Half)
        } else if token_eq(&u, "FULL") {
            Ok(PixelFormat::Full)
        } else if token_eq(&u, "LONG") {
            Ok(PixelFormat::Full)
        } else if token_eq(&u, "REAL") {
            Ok(PixelFormat::Real)
        } else if token_eq(&u, "DOUB") {
            Ok(PixelFormat::Doub)
        } else if token_eq(&u, "COMP") {
            Ok(PixelFormat::Comp)
        } else if token_eq(&u, "COMPLEX") {
            Ok(PixelFormat::Comp)
        } else {
            Err(VicarError::UnexpectedEnum(s.to_owned()))
        }
    }
}

/// The deprecated spellings route to their successors at parse time:
/// `WORD` to the same format as `HALF`, `LONG` to the same as `FULL`, and
/// `COMPLEX` to the same as `COMP`.
pub proof fn lemma_deprecated_aliases()
    ensures
        pixel_format_of("WORD"@) == pixel_format_of("HALF"@),
        pixel_format_of("LONG"@) == pixel_format_of("FULL"@),
        pixel_format_of("COMPLEX"@) == pixel_format_of("COMP"@),
{
    reveal_strlit("WORD");
    reveal_strlit("HALF");
    reveal_strlit("LONG");
    reveal_strlit("FULL");
    reveal_strlit("COMPLEX");
    reveal_strlit("COMP");
    reveal_strlit("BYTE");
    reveal_strlit("REAL");
    reveal_strlit("DOUB");
    assert(upper("WORD"@) =~= "WORD"@);
    assert(upper("HALF"@) =~= "HALF"@);
    assert(upper("LONG"@) =~= "LONG"@);
    assert(upper("FULL"@) =~= "FULL"@);
    assert(upper("COMPLEX"@) =~= "COMPLEX"@);
    assert(upper("COMP"@) =~= "COMP"@);
    assert("BYTE"@[0] == 'B');
    assert("HALF"@[0] == 'H');
    assert("WORD"@[0] == 'W');
    assert("FULL"@[0] == 'F');
    assert("LONG"@[0] == 'L');
    assert("REAL"@[0] == 'R');
    assert("DOUB"@[0] == 'D');
    assert("COMP"@[0] == 'C');
    assert("COMPLEX"@.len() == 7);
    assert("COMP"@.len() == 4);
    assert(pixel_format_of("WORD"@) == Some(PixelFormat::Half));
    assert(pixel_format_of("HALF"@) == Some(PixelFormat::Half));
    assert(pixel_format_of("LONG"@) == Some(PixelFormat::Full));
    assert(pixel_format_of("FULL"@) == Some(PixelFormat::Full));
    assert(pixel_format_of("COMPLEX"@) == Some(PixelFormat::Comp));
    assert(pixel_format_of("COMP"@) == Some(PixelFormat::Comp));
}

/// What kind of data the file declares.
#[derive(Debug, Eq, PartialEq, Copy, Clone, Structural)]
pub enum DataType {
    Image,
    Parms,
    Parm,
    Param,
    Graph1,
    Graph2,
    Graph3,
    Tabular,
}

/// The data type a token names, after ASCII upper-casing.
pub open spec fn data_type_of(s: Seq<char>) -> Option<DataType> {
    let u = upper(s);
    if u == "IMAGE"@ {
        Some(DataType::Image)
    } else if u == "PARMS"@ {
        Some(DataType::Parms)
    } else if u == "PARM"@ {
        Some(DataType::Parm)
    } else if u == "PARAM"@ {
        Some(DataType::Param)
    } else if u == "GRAPH1"@ {
        Some(DataType::Graph1)
    } else if u == "GRAPH2"@ {
        Some(DataType::Graph2)
    } else if u == "GRAPH3"@ {
        Some(DataType::Graph3)
    } else if u == "TABULAR"@ {
        Some(DataType::Tabular)
    } else {
        None
    }
}

impl DataType {
    /// Parses a data-type token, case-insensitively.
    pub fn from_string(s: &str) -> (r: Result<DataType, VicarError>)
        ensures
            match r {
                Ok(d) => data_type_of(s@) == Some(d),
                Err(e) => data_type_of(s@) is None && e is UnexpectedEnum,
            },
    {
        let chars = chars_of(s);
        let u = upper_exec(&chars);
        if token_eq(&u, "IMAGE") {
            Ok(DataType::Image)
        } else if token_eq(&u, "PARMS") {
            Ok(DataType::Parms)
        } else if token_eq(&u, "PARM") {
            Ok(DataType::Parm)
        } else if token_eq(&u, "PARAM") {
            Ok(DataType::Param)
        } else if token_eq(&u, "GRAPH1") {
            Ok(DataType::Graph1)
        } else if token_eq(&u, "GRAPH2") {
            Ok(DataType::Graph2)
        } else if token_eq(&u, "GRAPH3") {
            Ok(DataType::Graph3)
        } else if token_eq(&u, "TABULAR") {
            Ok(DataType::Tabular)
        } else {
            Err(VicarError::UnexpectedEnum(s.to_owned()))
        }
    }
}

/// How the three on-disk axes are interleaved.
#[derive(Debug, Eq, PartialEq, Copy, Clone, Structural)]
pub enum DataOrganization {
    /// Band-sequential: N1 samples, N2 lines, N3 bands.
    Bsq,
    /// Band-interleaved by line: N1 samples, N2 bands, N3 lines.
    Bil,
    /// Band-interleaved by pixel: N1 bands, N2 samples, N3 lines.
    Bip,
}

/// The organization a token names, after ASCII upper-casing.
pub open spec fn organization_of(s: Seq<char>) -> Option<DataOrganization> {
    let u = upper(s);
    if u == "BSQ"@ {
        Some(DataOrganization::Bsq)
    } else if u == "BIL"@ {
        Some(DataOrganization::Bil)
    } else if u == "BIP"@ {
        Some(DataOrganization::Bip)
    } else {
        None
    }
}

impl DataOrganization {
    /// Parses an organization token, case-insensitively.
    pub fn from_string(s: &str) -> (r: Result<DataOrganization, VicarError>)
        ensures
            match r {
                Ok(d) => organization_of(s@) == Some(d),
                Err(e) => organization_of(s@) is None && e is UnexpectedEnum,
            },
    {
        let chars = chars_of(s);
        let u = upper_exec(&chars);
        if token_eq(&u, "BSQ") {
            Ok(DataOrganization::Bsq)
        } else if token_eq(&u, "BIL") {
            Ok(DataOrganization::Bil)
        } else if token_eq(&u, "BIP") {
            Ok(DataOrganization::Bip)
        } else {
            Err(VicarError::UnexpectedEnum(s.to_owned()))
        }
    }
}

} // verus!
