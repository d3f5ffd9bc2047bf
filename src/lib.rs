//! Conversion between KDL document trees and the generic values of a
//! structured-data shell.
//!
//! Decoding maps a document to a record keyed by node names; encoding maps
//! a record back to a document. Both are total: every input gives a value
//! or one of the errors of [`ErrorKind`].

pub mod decode;
pub mod document;
pub mod encode;
pub mod error;
pub mod laws;
pub mod value;

use vstd::prelude::*;
use crate::decode::{decode_document, document_value};
use crate::document::Document;
use crate::encode::{document_of, document_result, encode_document};
use crate::error::ErrorKind;
use crate::value::{ValModel, Value};

verus! {

/// The KDL conversion, as the shell's plugin exposes it.
pub struct KDL;

impl KDL {
    /// Decodes a parsed document into a record keyed by node names, in
    /// node order.
    pub fn from(&self, document: &Document) -> (r: Value)
        ensures
            r@ == document_value(document@),
    {
        decode_document(document)
    }

    /// Encodes a record as a document, one node per key; anything but a
    /// record is refused.
    pub fn to(&self, value: &Value) -> (r: Result<Document, ErrorKind>)
        ensures
            document_result(r) == document_of(value@),
    {
        encode_document(value)
    }
}

/// The text that decoding reads: the input must be a string.
pub fn input_text(input: &Value) -> (r: Result<String, ErrorKind>)
    ensures
        match input@ {
            ValModel::Str(s) => r is Ok && r->Ok_0@ == s,
            _ => r == Err::<String, ErrorKind>(ErrorKind::InputTypeError),
        },
{
    match input {
        Value::String(s) => Ok(s.clone()),
        _ => Err(ErrorKind::InputTypeError),
    }
}

} // verus!
