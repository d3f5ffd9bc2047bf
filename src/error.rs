//! The kinds of failure that decoding and encoding report.
use vstd::prelude::*;

verus! {

/// Why a conversion failed.
#[derive(Clone, Copy, PartialEq, Eq, Structural, Debug)]
pub enum ErrorKind {
    /// The document text is malformed; reported by the document parser.
    ParseError,
    /// The input handed to decoding is not text.
    InputTypeError,
    /// The value handed to encoding is not a record.
    NotARecord,
    /// A record given as an entry has zero keys or more than one.
    InvalidEntryShape,
    /// A list or record stands where only a scalar can.
    UnsupportedValueType,
    /// A key of a record has no value.
    MissingKey,
}

/// The short label shown with an error.
pub open spec fn error_label(k: ErrorKind) -> Seq<char> {
    match k {
        ErrorKind::ParseError => "failed to parse KDL"@,
        _ => "invalid input"@,
    }
}

/// The explanation shown with an error.
pub open spec fn error_message(k: ErrorKind) -> Seq<char> {
    match k {
        ErrorKind::ParseError => "the input is not a valid KDL document"@,
        ErrorKind::InputTypeError => "input is not a string"@,
        ErrorKind::NotARecord => "value to encode must be a record"@,
        ErrorKind::InvalidEntryShape => "entry must be a record with exactly one key"@,
        ErrorKind::UnsupportedValueType => "value not supported, expected string, int, float, bool or null"@,
        ErrorKind::MissingKey => "record key has no value"@,
    }
}

impl ErrorKind {
    /// The short label of this error.
    pub fn label(&self) -> (r: String)
        ensures
            r@ == error_label(*self),
    {
        match self {
            ErrorKind::ParseError => "failed to parse KDL".to_string(),
            _ => "invalid input".to_string(),
        }
    }

    /// The explanation of this error.
    pub fn message(&self) -> (r: String)
        ensures
            r@ == error_message(*self),
    {
        match self {
            ErrorKind::ParseError => "the input is not a valid KDL document".to_string(),
            ErrorKind::InputTypeError => "input is not a string".to_string(),
            ErrorKind::NotARecord => "value to encode must be a record".to_string(),
            ErrorKind::InvalidEntryShape => "entry must be a record with exactly one key".to_string(),
            ErrorKind::UnsupportedValueType => {
                "value not supported, expected string, int, float, bool or null".to_string()
            },
            ErrorKind::MissingKey => "record key has no value".to_string(),
        }
    }
}

} // verus!
