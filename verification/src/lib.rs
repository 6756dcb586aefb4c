//! Parsing of PVL (Parameter Value Language) text labels and of VICAR
//! planetary image files: typed label values, a character-level scanner and
//! structural parser for PVL documents, and a label resolver plus pixel
//! addressing engine for VICAR byte buffers.

mod chars;
mod formats;
mod label_value;
mod numparse;
mod text;
mod typing;
mod vicar_reader;

pub mod pvl;

pub use chars::{all_of_class, class_matches, is_alpha, is_digit, run_end, CharClass};
pub use formats::{
    data_type_of, lemma_deprecated_aliases, organization_of, pixel_format_of, width_of,
    DataOrganization, DataType, PixelFormat, VicarError,
};
pub use label_value::{
    inferred_type, lemma_inference_deterministic, KeyValuePair, KeyValuePairModel, Value,
    ValueModel, ValueType,
};
pub use numparse::{
    bool_from_text, digits_value, int_digits, int_has_sign, int_magnitude, int_negative,
    int_value, int_wellformed, sint_from_text, uint_from_text,
};
pub use text::{
    chars_of, lemma_split_on_class_len, split_on_class, trim_end, trim_start, trimmed, upper,
    upper_char,
};
pub use typing::{
    array_pattern, bitmask_pattern, bool_pattern, flag_pattern, float_pattern, integer_pattern,
    is_quote, string_pattern, without_surrounding_quotes,
};
pub use vicar_reader::{
    as_signed16, as_signed32, as_signed64, be_value, decode_width, decoded_sample,
    detached_dimension, format_field, label_property, lines_samples_bands, lossy_chars, match_at,
    org_field, pixel_offset, pixel_offset_fits, property_end, property_raw, resolve_detached,
    resolve_label, scan_from, scan_pos, string_field, type_field, usize_field, verr_has_kind,
    DetachedOutcome, FieldOutcome, PixelValue, PropertyLookup, ResolveOutcome, VErrKind,
    VicarReader,
};
