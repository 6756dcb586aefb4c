//! The VICAR label resolver and pixel addressing engine.
//!
//! An embedded label is scanned ad hoc: each fixed field is found by a
//! literal `KEY=` search in the file's text, cut at the next space, split on
//! `=` and typed by the value engine. The resolved geometry then turns a
//! `(line, sample, band)` query into a byte offset into the raw data.

use vstd::prelude::*;

use crate::chars::{run_end, CharClass};
use crate::formats::{
    data_type_of, organization_of, pixel_format_of, width_of, DataOrganization, DataType,
    PixelFormat, VicarError,
};
use crate::label_value::{inferred_type, KeyValuePair, Value, ValueType};
use crate::numparse::uint_from_text;
use crate::pvl::PropertyGrouping;
use crate::text::{chars_of, copy_range, split_on_class, split_range_on_class, string_from_chars};
use crate::typing::without_surrounding_quotes;

verus! {

/// What `String::from_utf8_lossy` yields on the given bytes, as characters.
pub uninterp spec fn lossy_chars(b: Seq<u8>) -> Seq<char>;

/// Relies on `String::from_utf8_lossy`: the result depends on the bytes
/// alone, and bytes that are all ASCII decode to exactly those bytes as
/// characters.
#[verifier::external_body]
fn utf8_lossy_chars(b: &Vec<u8>) -> (r: Vec<char>)
    ensures
        r@ == lossy_chars(b@),
        (forall|i: int| 0 <= i < b@.len() ==> b@[i] < 128) ==> r@ == b@.map_values(
            |x: u8| x as char,
        ),
{
    String::from_utf8_lossy(b.as_slice()).chars().collect()
}

/// The pattern `pat` occurs in `t` at position `i`.
pub open spec fn match_at(t: Seq<char>, pat: Seq<char>, i: int) -> bool {
    i + pat.len() <= t.len() && t.subrange(i, i + pat.len()) == pat
}

/// The first position at or after `i`, and strictly before
/// `t.len() - pat.len()`, where `pat` occurs. The strict bound means an
/// occurrence flush against the text's end is not found.
pub open spec fn scan_from(t: Seq<char>, pat: Seq<char>, i: int) -> Option<int>
    decreases t.len() - i
        when 0 <= i
{
    if i >= t.len() - pat.len() {
        None
    } else if match_at(t, pat, i) {
        Some(i)
    } else {
        scan_from(t, pat, i + 1)
    }
}

/// Where the search for the label field `key` finds `key=`.
pub open spec fn scan_pos(t: Seq<char>, key: Seq<char>) -> Option<int> {
    scan_from(t, key + seq!['='], 0)
}

/// Where the raw property found at `i` stops: at the first space strictly
/// after `i`, or back at `i` itself (an empty raw) when no space follows.
pub open spec fn property_end(t: Seq<char>, i: int) -> int {
    let e = run_end(t, i + 1, CharClass::NotSpace);
    if e < t.len() {
        e
    } else {
        i
    }
}

/// The raw `KEY=value` text of the field found at `i`.
pub open spec fn property_raw(t: Seq<char>, i: int) -> Seq<char> {
    t.subrange(i, property_end(t, i))
}

/// What looking a field up in the label text yields.
pub enum PropertyLookup {
    /// The `KEY=` pattern does not occur.
    Missing,
    /// The raw text does not split into exactly a key and a value.
    Malformed,
    /// The key part and the value part.
    Found(Seq<char>, Seq<char>),
}

/// Looking the field `key` up in the label text: the raw text at the first
/// `key=` occurrence, cut at the next space and split on `=`.
pub open spec fn label_property(t: Seq<char>, key: Seq<char>) -> PropertyLookup {
    match scan_pos(t, key) {
        None => PropertyLookup::Missing,
        Some(i) => {
            let raw = property_raw(t, i);
            let parts = split_on_class(raw, CharClass::NotEqualsSign);
            if parts.len() != 2 {
                PropertyLookup::Malformed
            } else {
                PropertyLookup::Found(parts[0], parts[1])
            }
        },
    }
}

/// Finds the first occurrence of `pat` strictly before
/// `t.len() - pat.len()`.
fn find_pattern(t: &Vec<char>, pat: &Vec<char>) -> (r: Option<usize>)
    ensures
        match r {
            Some(i) => scan_from(t@, pat@, 0) == Some(i as int) && i + pat@.len() <= t@.len(),
            None => scan_from(t@, pat@, 0) is None,
        },
{
    if pat.len() >= t.len() {
        return None;
    }
    let bound = t.len() - pat.len();
    let mut i: usize = 0;
    loop
        invariant
            i <= bound,
            bound == t@.len() - pat@.len(),
            pat@.len() < t@.len(),
            t@.len() <= usize::MAX,
            scan_from(t@, pat@, 0) == scan_from(t@, pat@, i as int),
        ensures
            i == bound,
            scan_from(t@, pat@, 0) == scan_from(t@, pat@, bound as int),
        decreases bound - i,
    {
        if i < bound {
            let mut j: usize = 0;
            let mut hit = true;
            loop
                invariant
                    j <= pat@.len(),
                    i < bound,
                    bound == t@.len() - pat@.len(),
                    t@.len() <= usize::MAX,
                    hit ==> forall|k: int| 0 <= k < j ==> t@[i + k] == pat@[k],
                    !hit ==> exists|k: int| 0 <= k < pat@.len() && t@[i + k] != pat@[k],
                ensures
                    hit ==> forall|k: int| 0 <= k < pat@.len() ==> t@[i + k] == pat@[k],
                    !hit ==> exists|k: int| 0 <= k < pat@.len() && t@[i + k] != pat@[k],
                decreases pat@.len() - j,
            {
                if j < pat.len() {
                    proof {
                        assert(i + j < t@.len());
                    }
                    if t[i + j] != pat[j] {
                        hit = false;
                        proof {
                            assert(t@[i + j] != pat@[j as int]);
                        }
                        break ;
                    }
                    j = j + 1;
                } else {
                    break ;
                }
            }
            if hit {
                proof {
                    assert(t@.subrange(i as int, i + pat@.len()) =~= pat@);
                    assert(match_at(t@, pat@, i as int));
                }
                return Some(i);
            }
            proof {
                let k = choose|k: int| 0 <= k < pat@.len() && t@[i + k] != pat@[k];
                assert(t@.subrange(i as int, i + pat@.len())[k] == t@[i + k]);
                assert(!match_at(t@, pat@, i as int));
            }
            i = i + 1;
        } else {
            break ;
        }
    }
    None
}

/// The error kinds of the resolver, mirrored at the spec level.
pub enum VErrKind {
    Eof,
    Syntax,
    InvalidType,
    ValueTypeParseError,
    UnexpectedEnum,
    General,
    PropertyNotFound,
}

/// The error value `e` is of the kind `k`.
pub open spec fn verr_has_kind(e: VicarError, k: VErrKind) -> bool {
    match k {
        VErrKind::Eof => e is Eof,
        VErrKind::Syntax => e is Syntax,
        VErrKind::InvalidType => e is InvalidType,
        VErrKind::ValueTypeParseError => e is ValueTypeParseError,
        VErrKind::UnexpectedEnum => e is UnexpectedEnum,
        VErrKind::General => e is General,
        VErrKind::PropertyNotFound => e is PropertyNotFound,
    }
}

/// A label field either resolves to a value or fails with an error kind.
pub enum FieldOutcome<T> {
    Value(T),
    Fail(VErrKind),
}

/// The field `key` read as a `usize`: looked up, gated on the inferred
/// type, and parsed as decimal text.
pub open spec fn usize_field(t: Seq<char>, key: Seq<char>) -> FieldOutcome<int> {
    match label_property(t, key) {
        PropertyLookup::Missing => FieldOutcome::Fail(VErrKind::Eof),
        PropertyLookup::Malformed => FieldOutcome::Fail(VErrKind::Syntax),
        PropertyLookup::Found(k, v) => {
            if inferred_type(v) != ValueType::Undetermined && inferred_type(v)
                != ValueType::Integer {
                FieldOutcome::Fail(VErrKind::InvalidType)
            } else {
                match uint_from_text(v, usize::MAX as int) {
                    Some(n) => FieldOutcome::Value(n),
                    None => FieldOutcome::Fail(VErrKind::ValueTypeParseError),
                }
            }
        },
    }
}

/// The field `key` read as a token of text: looked up and gated on the
/// inferred type. A quoted value loses its surrounding quotes; a bare
/// `Flag` identifier, as unquoted labels write `TYPE=IMAGE`, passes as its
/// raw text.
pub open spec fn string_field(t: Seq<char>, key: Seq<char>) -> FieldOutcome<Seq<char>> {
    match label_property(t, key) {
        PropertyLookup::Missing => FieldOutcome::Fail(VErrKind::Eof),
        PropertyLookup::Malformed => FieldOutcome::Fail(VErrKind::Syntax),
        PropertyLookup::Found(k, v) => {
            if inferred_type(v) == ValueType::Flag {
                FieldOutcome::Value(v)
            } else if inferred_type(v) != ValueType::Undetermined && inferred_type(v)
                != ValueType::String {
                FieldOutcome::Fail(VErrKind::InvalidType)
            } else {
                FieldOutcome::Value(without_surrounding_quotes(v, true))
            }
        },
    }
}

/// The `TYPE` field mapped through the data-type enumeration.
pub open spec fn type_field(t: Seq<char>) -> FieldOutcome<DataType> {
    match string_field(t, "TYPE"@) {
        FieldOutcome::Fail(k) => FieldOutcome::Fail(k),
        FieldOutcome::Value(s) => match data_type_of(s) {
            Some(d) => FieldOutcome::Value(d),
            None => FieldOutcome::Fail(VErrKind::UnexpectedEnum),
        },
    }
}

/// The `FORMAT` field mapped through the pixel-format enumeration.
pub open spec fn format_field(t: Seq<char>) -> FieldOutcome<PixelFormat> {
    match string_field(t, "FORMAT"@) {
        FieldOutcome::Fail(k) => FieldOutcome::Fail(k),
        FieldOutcome::Value(s) => match pixel_format_of(s) {
            Some(d) => FieldOutcome::Value(d),
            None => FieldOutcome::Fail(VErrKind::UnexpectedEnum),
        },
    }
}

/// The `ORG` field mapped through the organization enumeration.
pub open spec fn org_field(t: Seq<char>) -> FieldOutcome<DataOrganization> {
    match string_field(t, "ORG"@) {
        FieldOutcome::Fail(k) => FieldOutcome::Fail(k),
        FieldOutcome::Value(s) => match organization_of(s) {
            Some(d) => FieldOutcome::Value(d),
            None => FieldOutcome::Fail(VErrKind::UnexpectedEnum),
        },
    }
}

/// How the on-disk axis lengths `(N1, N2, N3)` are reinterpreted as
/// `(lines, samples, bands)` under each organization.
pub open spec fn lines_samples_bands(n1: int, n2: int, n3: int, org: DataOrganization) -> (
    int,
    int,
    int,
) {
    match org {
        DataOrganization::Bsq => (n2, n1, n3),
        DataOrganization::Bil => (n3, n1, n2),
        DataOrganization::Bip => (n3, n2, n1),
    }
}

/// Everything resolving an embedded label determines, or the kind of the
/// first failure, in the order the fields are read.
pub struct ResolveOutcome {
    pub label_start: int,
    pub label_size: int,
    pub recsize: int,
    pub dim: int,
    pub n1: int,
    pub n2: int,
    pub n3: int,
    pub nlb: int,
    pub nbb: int,
    pub data_type: DataType,
    pub format: PixelFormat,
    pub org: DataOrganization,
    pub lines: int,
    pub samples: int,
    pub bands: int,
    pub data_start: int,
    pub err: Option<VErrKind>,
}

/// A failed resolution of the given kind.
pub open spec fn resolve_fail(k: VErrKind) -> ResolveOutcome {
    ResolveOutcome { err: Some(k), ..arbitrary() }
}

/// Resolving an embedded label: the fixed fields in reading order, the
/// dimension reordering, and the absolute offset where pixel data begins.
/// A size computation that exceeds the machine's address range fails.
pub open spec fn resolve_label(t: Seq<char>) -> ResolveOutcome {
    let lblsize = usize_field(t, "LBLSIZE"@);
    let recsize = usize_field(t, "RECSIZE"@);
    let dim = usize_field(t, "DIM"@);
    let n1 = usize_field(t, "N1"@);
    let n2 = usize_field(t, "N2"@);
    let n3 = usize_field(t, "N3"@);
    let nlb = usize_field(t, "NLB"@);
    let nbb = usize_field(t, "NBB"@);
    if scan_pos(t, "LBLSIZE"@) is None {
        resolve_fail(VErrKind::Eof)
    } else if lblsize is Fail {
        resolve_fail(lblsize->Fail_0)
    } else if recsize is Fail {
        resolve_fail(recsize->Fail_0)
    } else if dim is Fail {
        resolve_fail(dim->Fail_0)
    } else if n1 is Fail {
        resolve_fail(n1->Fail_0)
    } else if n2 is Fail {
        resolve_fail(n2->Fail_0)
    } else if n3 is Fail {
        resolve_fail(n3->Fail_0)
    } else if nlb is Fail {
        resolve_fail(nlb->Fail_0)
    } else if nbb is Fail {
        resolve_fail(nbb->Fail_0)
    } else if type_field(t) is Fail {
        resolve_fail(type_field(t)->Fail_0)
    } else if nlb->Value_0 * recsize->Value_0 + lblsize->Value_0 > usize::MAX {
        resolve_fail(VErrKind::General)
    } else if format_field(t) is Fail {
        resolve_fail(format_field(t)->Fail_0)
    } else if org_field(t) is Fail {
        resolve_fail(org_field(t)->Fail_0)
    } else {
        let ls = scan_pos(t, "LBLSIZE"@)->0;
        let org = org_field(t)->Value_0;
        let ds = ls + nlb->Value_0 * recsize->Value_0 + lblsize->Value_0 + nbb->Value_0;
        if ds > usize::MAX {
            resolve_fail(VErrKind::General)
        } else {
            let dims = lines_samples_bands(n1->Value_0, n2->Value_0, n3->Value_0, org);
            ResolveOutcome {
                label_start: ls,
                label_size: lblsize->Value_0,
                recsize: recsize->Value_0,
                dim: dim->Value_0,
                n1: n1->Value_0,
                n2: n2->Value_0,
                n3: n3->Value_0,
                nlb: nlb->Value_0,
                nbb: nbb->Value_0,
                data_type: type_field(t)->Value_0,
                format: format_field(t)->Value_0,
                org: org,
                lines: dims.0,
                samples: dims.1,
                bands: dims.2,
                data_start: ds,
                err: None,
            }
        }
    }
}

/// Resolved geometry and encoding state for one image, together with the
/// label text (as characters of the lossy decode) and the raw bytes that
/// pixel queries read from.
#[derive(Debug)]
pub struct VicarReader {
    /// The raw bytes pixel queries read from.
    pub data: Vec<u8>,
    /// The absolute byte offset where pixel data begins.
    pub data_start: usize,
    pub label_size: usize,
    pub dimensions: usize,
    pub binary_bytes_before_record: usize,
    pub binary_bytes_header: usize,
    pub recsize: usize,
    pub lines: usize,
    pub samples: usize,
    pub bands: usize,
    pub org: DataOrganization,
    pub format: PixelFormat,
    pub data_type: DataType,
    pub strings: Vec<char>,
}

impl VicarReader {
    /// Looks up a raw field of the label text: the text at the first
    /// `key=`, cut at the next space, split once on `=`.
    fn lookup_field(strings: &Vec<char>, key: &str) -> (r: Result<
        (Vec<char>, Vec<char>),
        VicarError,
    >)
        ensures
            match r {
                Ok(kv) => label_property(strings@, key@) == PropertyLookup::Found(kv.0@, kv.1@),
                Err(e) => (label_property(strings@, key@) is Missing && e is Eof) || (
                label_property(strings@, key@) is Malformed && e is Syntax),
            },
    {
        let mut keyeq = chars_of(key);
        keyeq.push('=');
        proof {
            assert(keyeq@ =~= key@ + seq!['=']);
        }
        match find_pattern(strings, &keyeq) {
            None => Err(VicarError::Eof),
            Some(i) => {
                let n = strings.len();
                proof {
                    assert(i + 1 <= strings@.len());
                    assert(strings@.len() == n);
                }
                let e0 = crate::chars::class_run_end(strings, i + 1, CharClass::NotSpace);
                let end = if e0 < strings.len() {
                    e0
                } else {
                    i
                };
                let raw = copy_range(strings, i, end);
                let mut parts = split_range_on_class(&raw, 0, CharClass::NotEqualsSign);
                proof {
                    assert(raw@.subrange(0, raw@.len() as int) =~= raw@);
                }
                if parts.len() != 2 {
                    Err(
                        VicarError::Syntax(
                            String::from_str(
                                "Property syntax error, missing or too many equality indicators",
                            ),
                        ),
                    )
                } else {
                    let ghost pm = parts@.map_values(|p: Vec<char>| p@);
                    let second = match parts.pop() {
                        Some(v) => v,
                        None => { return Err(VicarError::Eof) },
                    };
                    let first = match parts.pop() {
                        Some(v) => v,
                        None => { return Err(VicarError::Eof) },
                    };
                    proof {
                        assert(first@ == pm[0]);
                        assert(second@ == pm[1]);
                    }
                    Ok((first, second))
                }
            },
        }
    }

    /// Reads a field as a `usize`, through the value typing engine.
    fn usize_field_exec(strings: &Vec<char>, key: &str) -> (r: Result<usize, VicarError>)
        ensures
            match r {
                Ok(v) => usize_field(strings@, key@) == FieldOutcome::Value(v as int),
                Err(e) => usize_field(strings@, key@) matches FieldOutcome::Fail(k)
                    && verr_has_kind(e, k),
            },
    {
        match Self::lookup_field(strings, key) {
            Err(e) => Err(e),
            Ok((_k, v)) => {
                let value = Value::from_chars(&v);
                value.parse_usize()
            },
        }
    }

    /// Reads a field as a text token, through the value typing engine: the
    /// string accessor for quoted values, the flag accessor for bare ones.
    fn string_field_exec(strings: &Vec<char>, key: &str) -> (r: Result<String, VicarError>)
        ensures
            match r {
                Ok(v) => string_field(strings@, key@) == FieldOutcome::Value(v@),
                Err(e) => string_field(strings@, key@) matches FieldOutcome::Fail(k)
                    && verr_has_kind(e, k),
            },
    {
        match Self::lookup_field(strings, key) {
            Err(e) => Err(e),
            Ok((_k, v)) => {
                let value = Value::from_chars(&v);
                if value.value_type() == ValueType::Flag {
                    value.parse_flag()
                } else {
                    value.parse_string()
                }
            },
        }
    }

    /// Resolves an embedded label: the whole file's bytes are decoded
    /// lossily to text, the fixed fields are scanned out of it, and the
    /// pixel-region offset is computed. On all-ASCII bytes the decoded text
    /// is the bytes themselves, which makes the resolution concrete for
    /// such labels.
    pub fn new(data: Vec<u8>) -> (r: Result<VicarReader, VicarError>)
        ensures
            (forall|i: int| 0 <= i < data@.len() ==> data@[i] < 128) ==> lossy_chars(data@)
                == data@.map_values(|x: u8| x as char),
            ({
                let t = lossy_chars(data@);
                let o = resolve_label(t);
                match o.err {
                    None => r matches Ok(v) && v.strings@ == t && v.data@ == data@
                        && v.label_size == o.label_size && v.recsize == o.recsize && v.dimensions
                        == o.dim && v.lines == o.lines && v.samples == o.samples && v.bands
                        == o.bands && v.org == o.org && v.format == o.format && v.data_type
                        == o.data_type && v.binary_bytes_before_record == o.nbb
                        && v.binary_bytes_header == o.nlb && v.data_start == o.data_start,
                    Some(k) => r matches Err(e) && verr_has_kind(e, k),
                }
            }),
    {
        let strings = utf8_lossy_chars(&data);
        let mut lblkeyeq = chars_of("LBLSIZE");
        lblkeyeq.push('=');
        proof {
            assert(lblkeyeq@ =~= "LBLSIZE"@ + seq!['=']);
        }
        let label_start = match find_pattern(&strings, &lblkeyeq) {
            Some(i) => i,
            None => { return Err(VicarError::Eof) },
        };
        let lblsize = match Self::usize_field_exec(&strings, "LBLSIZE") {
            Ok(v) => v,
            Err(e) => { return Err(e) },
        };
        let recsize = match Self::usize_field_exec(&strings, "RECSIZE") {
            Ok(v) => v,
            Err(e) => { return Err(e) },
        };
        let dim = match Self::usize_field_exec(&strings, "DIM") {
            Ok(v) => v,
            Err(e) => { return Err(e) },
        };
        let n1 = match Self::usize_field_exec(&strings, "N1") {
            Ok(v) => v,
            Err(e) => { return Err(e) },
        };
        let n2 = match Self::usize_field_exec(&strings, "N2") {
            Ok(v) => v,
            Err(e) => { return Err(e) },
        };
        let n3 = match Self::usize_field_exec(&strings, "N3") {
            Ok(v) => v,
            Err(e) => { return Err(e) },
        };
        let nlb = match Self::usize_field_exec(&strings, "NLB") {
            Ok(v) => v,
            Err(e) => { return Err(e) },
        };
        let nbb = match Self::usize_field_exec(&strings, "NBB") {
            Ok(v) => v,
            Err(e) => { return Err(e) },
        };
        let type_text = match Self::string_field_exec(&strings, "TYPE") {
            Ok(v) => v,
            Err(e) => { return Err(e) },
        };
        let data_type = match DataType::from_string(type_text.as_str()) {
            Ok(v) => v,
            Err(e) => { return Err(e) },
        };
        let header_stop = match nlb.checked_mul(recsize) {
            Some(h) => match h.checked_add(lblsize) {
                Some(s) => s,
                None => {
                    return Err(
                        VicarError::General(String::from_str("binary header size out of range")),
                    )
                },
            },
            None => {
                return Err(
                    VicarError::General(String::from_str("binary header size out of range")),
                )
            },
        };
        let format_text = match Self::string_field_exec(&strings, "FORMAT") {
            Ok(v) => v,
            Err(e) => { return Err(e) },
        };
        let format = match PixelFormat::from_string(format_text.as_str()) {
            Ok(v) => v,
            Err(e) => { return Err(e) },
        };
        let org_text = match Self::string_field_exec(&strings, "ORG") {
            Ok(v) => v,
            Err(e) => { return Err(e) },
        };
        let organization = match DataOrganization::from_string(org_text.as_str()) {
            Ok(v) => v,
            Err(e) => { return Err(e) },
        };
        let data_start = match label_start.checked_add(header_stop) {
            Some(s) => match s.checked_add(nbb) {
                Some(d) => d,
                None => {
                    return Err(
                        VicarError::General(String::from_str("pixel data offset out of range")),
                    )
                },
            },
            None => {
                return Err(
                    VicarError::General(String::from_str("pixel data offset out of range")),
                )
            },
        };
        let (lines, samples, bands): (usize, usize, usize) = match organization {
            DataOrganization::Bsq => (n2, n1, n3),
            DataOrganization::Bil => (n3, n1, n2),
            DataOrganization::Bip => (n3, n2, n1),
        };
        Ok(
            VicarReader {
                data,
                data_start,
                label_size: lblsize,
                dimensions: dim,
                binary_bytes_before_record: nbb,
                binary_bytes_header: nlb,
                recsize,
                lines,
                samples,
                bands,
                org: organization,
                format,
                data_type,
                strings,
            },
        )
    }
}

/// The dimension `key` read from the `IMAGE` object of a detached label:
/// missing, untyped or unparsable fields default to zero rather than
/// failing.
pub open spec fn detached_dimension(g: crate::pvl::GroupingModel, key: Seq<char>) -> int {
    match crate::pvl::property_lookup(g.properties, key) {
        None => 0,
        Some(i) => {
            let v = g.properties[i].value;
            if v.vtype == crate::pvl::ValueType::Undetermined || v.vtype
                == crate::pvl::ValueType::Integer {
                match uint_from_text(v.raw, usize::MAX as int) {
                    Some(n) => n,
                    None => 0,
                }
            } else {
                0
            }
        },
    }
}

/// What resolving a detached label's document yields: the three dimensions
/// of its `IMAGE` object and the referenced pixel file's name, out of the
/// first element of the `^IMAGE` pointer array.
pub struct DetachedOutcome {
    pub lines: int,
    pub samples: int,
    pub bands: int,
    pub filename: Seq<char>,
    pub err: Option<VErrKind>,
}

/// Resolving a detached label's document. The `IMAGE` object and the
/// `^IMAGE` pointer are required; the pointer's value must be an array
/// whose first element reads as a string.
pub open spec fn resolve_detached(d: crate::pvl::DocumentModel) -> DetachedOutcome {
    match crate::pvl::grouping_lookup(d.objects, "IMAGE"@) {
        None => DetachedOutcome { err: Some(VErrKind::PropertyNotFound), ..arbitrary() },
        Some(oi) => {
            let img = d.objects[oi];
            let lines = detached_dimension(img, "LINES"@);
            let samples = detached_dimension(img, "LINE_SAMPLES"@);
            let bands = detached_dimension(img, "BANDS"@);
            match crate::pvl::property_lookup(d.properties, "^IMAGE"@) {
                None => DetachedOutcome { err: Some(VErrKind::PropertyNotFound), ..arbitrary() },
                Some(pi) => {
                    let v = d.properties[pi].value;
                    if v.vtype != crate::pvl::ValueType::Array {
                        DetachedOutcome { err: Some(VErrKind::InvalidType), ..arbitrary() }
                    } else {
                        let first = split_on_class(
                            v.raw.subrange(1, v.raw.len() - 1),
                            CharClass::NotComma,
                        )[0];
                        let ft = crate::pvl::inferred_type(first);
                        if ft != crate::pvl::ValueType::Undetermined && ft
                            != crate::pvl::ValueType::String {
                            DetachedOutcome { err: Some(VErrKind::InvalidType), ..arbitrary() }
                        } else {
                            DetachedOutcome {
                                lines,
                                samples,
                                bands,
                                filename: without_surrounding_quotes(first, false),
                                err: None,
                            }
                        }
                    }
                },
            }
        },
    }
}

/// A decoded pixel sample, before any floating-point conversion: the byte,
/// the signed big-endian integer, or the raw bits of a big-endian float.
/// The caller turns it into its floating-point reading.
#[derive(Debug, PartialEq, Eq, Copy, Clone, Structural)]
pub enum PixelValue {
    /// An unsigned 8-bit sample.
    Byte(u8),
    /// A signed 16-bit big-endian sample.
    Int16(i16),
    /// A signed 32-bit big-endian sample.
    Int32(i32),
    /// A signed 64-bit big-endian sample, as the `DOUB` decode reads it.
    Int64(i64),
    /// The raw bits of a 32-bit big-endian float.
    RealBits(u32),
}

/// The byte offset of a `(line, sample, band)` query relative to the pixel
/// region's start. The formula lays bands out sequentially whatever the
/// declared organization says; `w` is the format's stride and `nbb` the
/// binary prefix of each record.
pub open spec fn pixel_offset(
    lines: int,
    samples: int,
    w: int,
    nbb: int,
    line: int,
    sample: int,
    band: int,
) -> int {
    lines * samples * w * band + line * nbb + line * samples * w + sample * w
}

/// Every staged product and the final sum of the offset formula fit the
/// machine's address range; the stages are the ones the computation takes.
pub open spec fn pixel_offset_fits(
    lines: int,
    samples: int,
    w: int,
    nbb: int,
    line: int,
    sample: int,
    band: int,
) -> bool {
    &&& lines * samples <= usize::MAX
    &&& lines * samples * w <= usize::MAX
    &&& lines * samples * w * band <= usize::MAX
    &&& line * nbb <= usize::MAX
    &&& line * samples <= usize::MAX
    &&& line * samples * w <= usize::MAX
    &&& sample * w <= usize::MAX
    &&& pixel_offset(lines, samples, w, nbb, line, sample, band) <= usize::MAX
}

/// The big-endian unsigned reading of `n` bytes of `b` starting at `i`.
pub open spec fn be_value(b: Seq<u8>, i: int, n: int) -> int
    decreases n,
{
    if n <= 0 {
        0
    } else {
        be_value(b, i, n - 1) * 256 + b[i + n - 1]
    }
}

/// The two's-complement reading of an unsigned 16-bit value.
pub open spec fn as_signed16(v: int) -> int {
    if v >= 0x8000 {
        v - 0x10000
    } else {
        v
    }
}

/// The two's-complement reading of an unsigned 32-bit value.
pub open spec fn as_signed32(v: int) -> int {
    if v >= 0x8000_0000 {
        v - 0x1_0000_0000
    } else {
        v
    }
}

/// The two's-complement reading of an unsigned 64-bit value.
pub open spec fn as_signed64(v: int) -> int {
    if v >= 0x8000_0000_0000_0000 {
        v - 0x1_0000_0000_0000_0000
    } else {
        v
    }
}

/// How many bytes the decode of a format reads. `Real` reads a whole float
/// and `Doub` a whole 64-bit integer even though their strides are
/// narrower.
pub open spec fn decode_width(f: PixelFormat) -> int {
    match f {
        PixelFormat::Byte => 1,
        PixelFormat::Half => 2,
        PixelFormat::Word => 2,
        PixelFormat::Full => 4,
        PixelFormat::Long => 4,
        PixelFormat::Real => 4,
        PixelFormat::Doub => 8,
        PixelFormat::Comp => 0,
        PixelFormat::Complex => 0,
    }
}

/// The sample a format decodes from the bytes at `off`.
pub open spec fn decoded_sample(f: PixelFormat, b: Seq<u8>, off: int) -> PixelValue {
    match f {
        PixelFormat::Byte => PixelValue::Byte(b[off]),
        PixelFormat::Half => PixelValue::Int16(as_signed16(be_value(b, off, 2)) as i16),
        PixelFormat::Word => PixelValue::Int16(as_signed16(be_value(b, off, 2)) as i16),
        PixelFormat::Full => PixelValue::Int32(as_signed32(be_value(b, off, 4)) as i32),
        PixelFormat::Long => PixelValue::Int32(as_signed32(be_value(b, off, 4)) as i32),
        PixelFormat::Real => PixelValue::RealBits(be_value(b, off, 4) as u32),
        PixelFormat::Doub => PixelValue::Int64(as_signed64(be_value(b, off, 8)) as i64),
        PixelFormat::Comp => arbitrary(),
        PixelFormat::Complex => arbitrary(),
    }
}

impl VicarReader {
    /// The character at `indx` of the label text.
    pub fn char_at(&self, indx: usize) -> (r: Result<char, VicarError>)
        ensures
            match r {
                Ok(c) => indx < self.strings@.len() && c == self.strings@[indx as int],
                Err(e) => indx >= self.strings@.len() && e is Eof,
            },
    {
        if indx >= self.strings.len() {
            Err(VicarError::Eof)
        } else {
            Ok(self.strings[indx])
        }
    }

    /// Whether `index` lies at or past the label text's end.
    pub fn is_index_at_eof(&self, index: usize) -> (r: bool)
        ensures
            r == (index >= self.strings@.len()),
    {
        index >= self.strings.len()
    }

    /// The position where the field `key` is found, by literal `key=`
    /// search.
    pub fn scan_for_property(&self, key: &str) -> (r: Result<usize, VicarError>)
        ensures
            match r {
                Ok(i) => scan_pos(self.strings@, key@) == Some(i as int),
                Err(e) => scan_pos(self.strings@, key@) is None && e is Eof,
            },
    {
        let mut keyeq = chars_of(key);
        keyeq.push('=');
        proof {
            assert(keyeq@ =~= key@ + seq!['=']);
        }
        match find_pattern(&self.strings, &keyeq) {
            Some(i) => Ok(i),
            None => Err(VicarError::Eof),
        }
    }

    /// Whether the field `key` occurs in the label text.
    pub fn has_property(&self, key: &str) -> (r: bool)
        ensures
            r == (scan_pos(self.strings@, key@) is Some),
    {
        match self.scan_for_property(key) {
            Ok(_) => true,
            Err(_) => false,
        }
    }

    /// Whether the text carries an embedded label at all.
    pub fn has_internal_label(&self) -> (r: bool)
        ensures
            r == (scan_pos(self.strings@, "LBLSIZE"@) is Some),
    {
        self.has_property("LBLSIZE")
    }

    /// The raw `KEY=value` text of the field `key`, cut at the next space.
    pub fn extract_property_raw(&self, key: &str) -> (r: Result<String, VicarError>)
        ensures
            match r {
                Ok(s) => scan_pos(self.strings@, key@) matches Some(i) && s@ == property_raw(
                    self.strings@,
                    i,
                ),
                Err(e) => scan_pos(self.strings@, key@) is None && e is Eof,
            },
    {
        let mut keyeq = chars_of(key);
        keyeq.push('=');
        proof {
            assert(keyeq@ =~= key@ + seq!['=']);
        }
        match find_pattern(&self.strings, &keyeq) {
            None => Err(VicarError::Eof),
            Some(i) => {
                let n = self.strings.len();
                proof {
                    assert(i + 1 <= self.strings@.len());
                    assert(self.strings@.len() == n);
                }
                let e0 = crate::chars::class_run_end(&self.strings, i + 1, CharClass::NotSpace);
                let end = if e0 < self.strings.len() {
                    e0
                } else {
                    i
                };
                let raw = copy_range(&self.strings, i, end);
                Ok(string_from_chars(&raw))
            },
        }
    }

    /// The field `key` as a typed property: the raw text split once on `=`,
    /// the right-hand side run through the value typing engine.
    pub fn get_property(&self, key: &str) -> (r: Result<KeyValuePair, VicarError>)
        ensures
            match r {
                Ok(kvp) => label_property(self.strings@, key@) matches PropertyLookup::Found(k, v)
                    && kvp@.key == k && kvp@.value.raw == v && kvp@.value.vtype == inferred_type(
                    v,
                ),
                Err(e) => (label_property(self.strings@, key@) is Missing && e is Eof) || (
                label_property(self.strings@, key@) is Malformed && e is Syntax),
            },
    {
        match Self::lookup_field(&self.strings, key) {
            Err(e) => Err(e),
            Ok((k, v)) => Ok(
                KeyValuePair { key: string_from_chars(&k), value: Value::from_chars(&v) },
            ),
        }
    }

    /// One dimension of the `IMAGE` object, zero when missing or
    /// unparsable.
    fn detached_dimension_exec(g: &crate::pvl::Object, key: &str) -> (r: usize)
        ensures
            r == detached_dimension(g.model(), key@),
    {
        match g.get_property(key) {
            None => 0,
            Some(kvp) => match kvp.value.parse_usize() {
                Ok(v) => v,
                Err(_) => 0,
            },
        }
    }

    /// The dimensions and referenced file name of a detached label's
    /// document.
    fn resolve_detached_exec(pvl: &crate::pvl::Pvl) -> (r: Result<
        (usize, usize, usize, String),
        VicarError,
    >)
        requires
            crate::pvl::document_wf(pvl@),
        ensures
            ({
                let o = resolve_detached(pvl@);
                match r {
                    Ok(d) => o.err is None && d.0 == o.lines && d.1 == o.samples && d.2 == o.bands
                        && d.3@ == o.filename,
                    Err(e) => o.err matches Some(k) && verr_has_kind(e, k),
                }
            }),
    {
        let image_object = match pvl.get_object("IMAGE") {
            Some(o) => o,
            None => { return Err(VicarError::PropertyNotFound(String::from_str("IMAGE"))) },
        };
        let lines = Self::detached_dimension_exec(image_object, "LINES");
        let samples = Self::detached_dimension_exec(image_object, "LINE_SAMPLES");
        let bands = Self::detached_dimension_exec(image_object, "BANDS");
        let pointer = match pvl.get_property("^IMAGE") {
            Some(p) => p,
            None => { return Err(VicarError::PropertyNotFound(String::from_str("^IMAGE"))) },
        };
        proof {
            crate::pvl::lemma_property_lookup_some(pvl@.properties, "^IMAGE"@);
            let pi = crate::pvl::property_lookup(pvl@.properties, "^IMAGE"@)->0;
            assert(pvl@.properties[pi].value.vtype == crate::pvl::inferred_type(
                pvl@.properties[pi].value.raw,
            ));
        }
        let elements = match pointer.value.parse_array() {
            Ok(a) => a,
            Err(_) => { return Err(VicarError::InvalidType) },
        };
        proof {
            crate::text::lemma_split_on_class_len(
                pointer.value@.raw.subrange(1, pointer.value@.raw.len() - 1),
                CharClass::NotComma,
            );
        }
        let filename = match elements[0].parse_string() {
            Ok(s) => s,
            Err(_) => { return Err(VicarError::InvalidType) },
        };
        Ok((lines, samples, bands, filename))
    }

    /// The pixel file that a detached label's `^IMAGE` pointer references:
    /// the first element of the pointer's array value, read as a string.
    /// The caller resolves it against the label file's directory. The
    /// document must carry well-typed values, which every document built by
    /// the parser does (`lemma_parse_document_wellformed`).
    pub fn detached_image_file_name(pvl: &crate::pvl::Pvl) -> (r: Result<String, VicarError>)
        requires
            crate::pvl::document_wf(pvl@),
        ensures
            ({
                let o = resolve_detached(pvl@);
                match r {
                    Ok(s) => o.err is None && s@ == o.filename,
                    Err(e) => o.err matches Some(k) && verr_has_kind(e, k),
                }
            }),
    {
        match Self::resolve_detached_exec(pvl) {
            Ok(d) => Ok(d.3),
            Err(e) => Err(e),
        }
    }

    /// Builds a reader from a parsed detached label and the raw bytes of
    /// the pixel file its `^IMAGE` pointer references. This path assumes a
    /// band-sequential organization of byte samples starting at offset
    /// zero; it does not re-derive them from the label. The document must
    /// carry well-typed values, which every document built by the parser
    /// does (`lemma_parse_document_wellformed`).
    pub fn new_from_detached_label(pvl: &crate::pvl::Pvl, image_data: Vec<u8>) -> (r: Result<
        VicarReader,
        VicarError,
    >)
        requires
            crate::pvl::document_wf(pvl@),
        ensures
            (forall|i: int| 0 <= i < image_data@.len() ==> image_data@[i] < 128) ==> lossy_chars(
                image_data@,
            ) == image_data@.map_values(|x: u8| x as char),
            ({
                let o = resolve_detached(pvl@);
                match r {
                    Ok(v) => o.err is None && v.lines == o.lines && v.samples == o.samples
                        && v.bands == o.bands && v.dimensions == o.bands && v.data_start == 0
                        && v.label_size == 0 && v.recsize == 0 && v.binary_bytes_before_record
                        == 0 && v.binary_bytes_header == 0 && v.org == DataOrganization::Bsq
                        && v.format == PixelFormat::Byte && v.data_type == DataType::Image
                        && v.data@ == image_data@ && v.strings@ == lossy_chars(image_data@),
                    Err(e) => o.err matches Some(k) && verr_has_kind(e, k),
                }
            }),
    {
        let strings = utf8_lossy_chars(&image_data);
        let (lines, samples, bands, _filename) = match Self::resolve_detached_exec(pvl) {
            Ok(d) => d,
            Err(e) => { return Err(e) },
        };
        Ok(
            VicarReader {
                data: image_data,
                data_start: 0,
                label_size: 0,
                dimensions: bands,
                binary_bytes_before_record: 0,
                binary_bytes_header: 0,
                recsize: 0,
                lines,
                samples,
                bands,
                org: DataOrganization::Bsq,
                format: PixelFormat::Byte,
                data_type: DataType::Image,
                strings,
            },
        )
    }

    /// The relative byte offset of a pixel query, when its computation fits
    /// the machine.
    fn checked_pixel_offset(&self, line: usize, sample: usize, band: usize) -> (r: Option<usize>)
        ensures
            ({
                let off = pixel_offset(
                    self.lines as int,
                    self.samples as int,
                    width_of(self.format),
                    self.binary_bytes_before_record as int,
                    line as int,
                    sample as int,
                    band as int,
                );
                let fits = pixel_offset_fits(
                    self.lines as int,
                    self.samples as int,
                    width_of(self.format),
                    self.binary_bytes_before_record as int,
                    line as int,
                    sample as int,
                    band as int,
                );
                match r {
                    Some(v) => fits && v == off,
                    None => !fits,
                }
            }),
    {
        let w = self.format.bytes_per_sample();
        let band_stride = match self.lines.checked_mul(self.samples) {
            Some(x) => match x.checked_mul(w) {
                Some(y) => match y.checked_mul(band) {
                    Some(z) => z,
                    None => { return None },
                },
                None => { return None },
            },
            None => { return None },
        };
        let record_prefix = match line.checked_mul(self.binary_bytes_before_record) {
            Some(x) => x,
            None => { return None },
        };
        let line_stride = match line.checked_mul(self.samples) {
            Some(x) => match x.checked_mul(w) {
                Some(y) => y,
                None => { return None },
            },
            None => { return None },
        };
        let sample_stride = match sample.checked_mul(w) {
            Some(x) => x,
            None => { return None },
        };
        match band_stride.checked_add(record_prefix) {
            Some(a) => match a.checked_add(line_stride) {
                Some(b) => match b.checked_add(sample_stride) {
                    Some(c) => Some(c),
                    None => None,
                },
                None => None,
            },
            None => None,
        }
    }

    /// Decodes the sample at `(line, sample, band)`: the byte offset is the
    /// band-sequential formula plus the pixel region's start, and the bytes
    /// there are read per the label's format. A query outside the data, or
    /// one whose offset exceeds the machine's address range, fails.
    pub fn get_pixel_value(&self, line: usize, sample: usize, band: usize) -> (r: Result<
        PixelValue,
        VicarError,
    >)
        requires
            self.format != PixelFormat::Comp,
            self.format != PixelFormat::Complex,
        ensures
            ({
                let off = self.data_start + pixel_offset(
                    self.lines as int,
                    self.samples as int,
                    width_of(self.format),
                    self.binary_bytes_before_record as int,
                    line as int,
                    sample as int,
                    band as int,
                );
                let fits = pixel_offset_fits(
                    self.lines as int,
                    self.samples as int,
                    width_of(self.format),
                    self.binary_bytes_before_record as int,
                    line as int,
                    sample as int,
                    band as int,
                );
                if fits && off + decode_width(self.format) <= self.data@.len() {
                    r matches Ok(v) && v == decoded_sample(self.format, self.data@, off)
                } else {
                    r matches Err(e) && e is General
                }
            }),
    {
        let n = self.data.len();
        proof {
            assert(self.data@.len() == n);
        }
        let byte_index = match self.checked_pixel_offset(line, sample, band) {
            Some(v) => v,
            None => {
                return Err(VicarError::General(String::from_str("pixel offset out of range")));
            },
        };
        let start = match self.data_start.checked_add(byte_index) {
            Some(v) => v,
            None => {
                return Err(VicarError::General(String::from_str("pixel offset out of range")));
            },
        };
        match self.format {
            PixelFormat::Byte => {
                if start < self.data.len() {
                    Ok(PixelValue::Byte(self.data[start]))
                } else {
                    Err(VicarError::General(String::from_str("pixel read past the data's end")))
                }
            },
            PixelFormat::Half | PixelFormat::Word => {
                if start <= self.data.len() && self.data.len() - start >= 2 {
                    Ok(PixelValue::Int16(self.read_i16_be(start)))
                } else {
                    Err(VicarError::General(String::from_str("pixel read past the data's end")))
                }
            },
            PixelFormat::Full | PixelFormat::Long => {
                if start <= self.data.len() && self.data.len() - start >= 4 {
                    Ok(PixelValue::Int32(self.read_i32_be(start)))
                } else {
                    Err(VicarError::General(String::from_str("pixel read past the data's end")))
                }
            },
            PixelFormat::Real => {
                if start <= self.data.len() && self.data.len() - start >= 4 {
                    Ok(PixelValue::RealBits(self.read_u32_be(start)))
                } else {
                    Err(VicarError::General(String::from_str("pixel read past the data's end")))
                }
            },
            PixelFormat::Doub => {
                if start <= self.data.len() && self.data.len() - start >= 8 {
                    Ok(PixelValue::Int64(self.read_i64_be(start)))
                } else {
                    Err(VicarError::General(String::from_str("pixel read past the data's end")))
                }
            },
            PixelFormat::Comp | PixelFormat::Complex => {
                Err(VicarError::General(String::from_str("complex samples are not supported")))
            },
        }
    }

    /// The signed 16-bit big-endian value at `i`.
    fn read_i16_be(&self, i: usize) -> (r: i16)
        requires
            i + 2 <= self.data@.len(),
        ensures
            r as int == as_signed16(be_value(self.data@, i as int, 2)),
    {
        let n = self.data.len();
        proof {
            assert(self.data@.len() == n);
            assert(be_value(self.data@, i as int, 0) == 0);
        }
        let u: u16 = (self.data[i] as u16) * 256 + (self.data[i + 1] as u16);
        proof {
            assert(be_value(self.data@, i as int, 2) == be_value(self.data@, i as int, 1) * 256
                + self.data@[i + 1]);
            assert(be_value(self.data@, i as int, 1) == self.data@[i as int]);
        }
        if u >= 0x8000 {
            ((u as i32) - 0x10000) as i16
        } else {
            u as i16
        }
    }

    /// The unsigned 32-bit big-endian value at `i`.
    fn read_u32_be(&self, i: usize) -> (r: u32)
        requires
            i + 4 <= self.data@.len(),
        ensures
            r == be_value(self.data@, i as int, 4),
    {
        let n = self.data.len();
        proof {
            assert(self.data@.len() == n);
            assert(be_value(self.data@, i as int, 0) == 0);
        }
        let b0 = self.data[i] as u32;
        let b1 = self.data[i + 1] as u32;
        let b2 = self.data[i + 2] as u32;
        let b3 = self.data[i + 3] as u32;
        let u: u32 = ((b0 * 256 + b1) * 256 + b2) * 256 + b3;
        proof {
            let d = self.data@;
            let ii = i as int;
            assert(be_value(d, ii, 4) == be_value(d, ii, 3) * 256 + d[ii + 3]);
            assert(be_value(d, ii, 3) == be_value(d, ii, 2) * 256 + d[ii + 2]);
            assert(be_value(d, ii, 2) == be_value(d, ii, 1) * 256 + d[ii + 1]);
            assert(be_value(d, ii, 1) == d[ii]);
        }
        u
    }

    /// The signed 32-bit big-endian value at `i`.
    fn read_i32_be(&self, i: usize) -> (r: i32)
        requires
            i + 4 <= self.data@.len(),
        ensures
            r as int == as_signed32(be_value(self.data@, i as int, 4)),
    {
        let u = self.read_u32_be(i);
        if u >= 0x8000_0000 {
            ((u as i64) - 0x1_0000_0000) as i32
        } else {
            u as i32
        }
    }

    /// The signed 64-bit big-endian value at `i`.
    fn read_i64_be(&self, i: usize) -> (r: i64)
        requires
            i + 8 <= self.data@.len(),
        ensures
            r as int == as_signed64(be_value(self.data@, i as int, 8)),
    {
        let n = self.data.len();
        proof {
            assert(self.data@.len() == n);
            assert(be_value(self.data@, i as int, 0) == 0);
        }
        let b0 = self.data[i] as u64;
        let b1 = self.data[i + 1] as u64;
        let b2 = self.data[i + 2] as u64;
        let b3 = self.data[i + 3] as u64;
        let b4 = self.data[i + 4] as u64;
        let b5 = self.data[i + 5] as u64;
        let b6 = self.data[i + 6] as u64;
        let b7 = self.data[i + 7] as u64;
        let u: u64 = (((((((b0 * 256 + b1) * 256 + b2) * 256 + b3) * 256 + b4) * 256 + b5) * 256
            + b6) * 256 + b7);
        proof {
            let d = self.data@;
            let ii = i as int;
            assert(be_value(d, ii, 8) == be_value(d, ii, 7) * 256 + d[ii + 7]);
            assert(be_value(d, ii, 7) == be_value(d, ii, 6) * 256 + d[ii + 6]);
            assert(be_value(d, ii, 6) == be_value(d, ii, 5) * 256 + d[ii + 5]);
            assert(be_value(d, ii, 5) == be_value(d, ii, 4) * 256 + d[ii + 4]);
            assert(be_value(d, ii, 4) == be_value(d, ii, 3) * 256 + d[ii + 3]);
            assert(be_value(d, ii, 3) == be_value(d, ii, 2) * 256 + d[ii + 2]);
            assert(be_value(d, ii, 2) == be_value(d, ii, 1) * 256 + d[ii + 1]);
            assert(be_value(d, ii, 1) == d[ii]);
        }
        if u >= 0x8000_0000_0000_0000 {
            let v: u64 = u - 0x8000_0000_0000_0000;
            i64::MIN + (v as i64)
        } else {
            u as i64
        }
    }
}

} // verus!
