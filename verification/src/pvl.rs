//! PVL (Parameter Value Language) label parsing: typed right-hand values, a
//! character-position-driven scanner, and the structural parser that turns a
//! label's text into a document of properties, groups and objects.

mod document;
mod error;
mod grouping;
mod reader;
mod symbol;
mod value;

pub use document::{
    document_wf, excludes_marker, lemma_parse_document_wellformed, lemma_parse_stable,
    pairs_wf, parse_document, parse_from, parse_resume, DocumentModel, ParseOutcome, Pvl,
};
pub use reader::{
    blank_line_at, comment_close_at, comment_close_from, comment_open_at, comment_interior,
    continuation_at, end_keyword_at, error_has_kind, group_body_at, group_keyword_at, line_begin,
    line_start_at, object_keyword_at, read_group_at, read_key_value_at,
    read_symbol_at, read_value_at, remaining_line_at, symbol_stop, without_carriage_returns,
    FailureKind, GroupBodyOutcome, GroupOutcome, KeyValueOutcome, LineOutcome, PvlReader,
    ReaderModel, ValueOutcome, CONTINUATION_PREFIX_LEN,
};

pub use error::Error;
pub use grouping::{
    grouping_lookup, lemma_grouping_lookup_at, lemma_grouping_lookup_none,
    lemma_property_lookup_at, lemma_property_lookup_none, lemma_property_lookup_some,
    pair_matches_name, property_lookup, Group, GroupingModel, KeyValuePair, KeyValuePairModel,
    Object, PropertyGrouping,
};
pub use reader::lemma_continuation_merges_once;
pub use symbol::{symbol_of_text, Symbol, SymbolModel};
pub use value::{
    inferred_type, lemma_inference_deterministic, Value, ValueModel, ValueType, ValueUnits,
};
