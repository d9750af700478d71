//! The payload extractor: the part of an inbound document that is relayed.

use crate::json::{json_members, member_text};
use crate::text::{trim, trimmed};
use vstd::prelude::*;

verus! {

/// Why nothing could be extracted from a document.
#[derive(Clone, Copy, Debug, PartialEq, Eq, Structural)]
pub enum ExtractionError {
    /// The document has no member `data` at its top level.
    MissingField,
}

/// The compact text of the member `data` of `body`, where it has one.
pub open spec fn payload_member(body: serde_json::Value) -> Option<Seq<char>> {
    if json_members(body).dom().contains("data"@) {
        Some(json_members(body)["data"@])
    } else {
        None
    }
}

/// What is extracted, given the text of the member `data`: that text without
/// the white space around it, or the error where there is no such member.
pub open spec fn extraction(member: Option<Seq<char>>) -> Result<Seq<char>, ExtractionError> {
    match member {
        Some(text) => Ok(trimmed(text)),
        None => Err(ExtractionError::MissingField),
    }
}

/// Whether `r` is the executable form of the result `expected`.
pub open spec fn is_extraction(
    r: Result<String, ExtractionError>,
    expected: Result<Seq<char>, ExtractionError>,
) -> bool {
    match r {
        Ok(content) => expected == Ok::<Seq<char>, ExtractionError>(content@),
        Err(e) => expected == Err::<Seq<char>, ExtractionError>(e),
    }
}

/// The payload, given the text of the member `data` as it was found: trimmed
/// where there is one, `MissingField` where there is none.
pub fn extract_member(member: Option<String>) -> (r: Result<String, ExtractionError>)
    ensures
        is_extraction(
            r,
            extraction(
                match member {
                    Some(text) => Some(text@),
                    None => None,
                },
            ),
        ),
{
    match member {
        Some(text) => Ok(String::from_str(trim(text.as_str()))),
        None => Err(ExtractionError::MissingField),
    }
}

/// The payload of an inbound document: the compact text of its top-level member
/// `data`, whatever kind of value that is, without white space around it. Fails
/// with `MissingField` exactly when the document has no such member.
pub fn extract(body: &serde_json::Value) -> (r: Result<String, ExtractionError>)
    ensures
        is_extraction(r, extraction(payload_member(*body))),
{
    extract_member(member_text(body, "data"))
}

} // verus!
