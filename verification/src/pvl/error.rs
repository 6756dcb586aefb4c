//! The PVL parser's error kinds.

use vstd::prelude::*;

verus! {

/// What a PVL scanning or parsing operation can fail with.
#[derive(Debug)]
pub enum Error {
    /// The cursor or a scan moved past the available text.
    Eof,
    /// Malformed line structure, such as a continuation line with no owner.
    Syntax(String),
    /// A comment skip was requested while not at a comment opening.
    CommentIsntComment,
    /// An operation was invoked in a state its precondition forbids.
    Programming(String),
    /// A typed accessor does not match the value's inferred type.
    InvalidType,
    /// The raw text does not parse as the requested native type.
    ValueTypeParseError,
    /// Text that could not be decoded.
    InvalidEncoding(String),
    /// A wrapped lower-level failure.
    General(String),
}

} // verus!
