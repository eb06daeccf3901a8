//! The checks on a manifest that is handed in, before anything is stored.

use crate::json::{json_of_text, parse_json, JsonTree, JsonValue};
use crate::manifest::{
    parse_rack_firmware_json, parsed_manifest, ParsedFirmwareComponents,
    ParsedFirmwareComponentsView,
};
use vstd::prelude::*;

verus! {

/// Why a manifest was turned away.
#[derive(Debug, PartialEq, Eq)]
pub enum SubmitError {
    /// The text is no JSON document. The string says what is wrong with it.
    InvalidJson(String),
    /// The document has no string under `Id`.
    MissingId,
    /// No token came with the manifest.
    MissingToken,
}

/// The kinds of `SubmitError`, without what they carry.
#[derive(Debug, Clone, Copy, PartialEq, Eq, Structural)]
pub enum SubmitErrorKind {
    InvalidJson,
    MissingId,
    MissingToken,
}

impl SubmitError {
    /// The kind of this error.
    pub open spec fn kind(self) -> SubmitErrorKind {
        match self {
            SubmitError::InvalidJson(_) => SubmitErrorKind::InvalidJson,
            SubmitError::MissingId => SubmitErrorKind::MissingId,
            SubmitError::MissingToken => SubmitErrorKind::MissingToken,
        }
    }
}

/// A manifest that passed the checks.
#[derive(Debug, PartialEq, Eq)]
pub struct Submission {
    /// The identifier under which the manifest is stored.
    pub id: String,
    /// The components read from it; none where it has no `BoardSKUs` array.
    /// Without them nothing is downloaded.
    pub parsed: Option<ParsedFirmwareComponents>,
}

pub struct SubmissionView {
    pub id: Seq<char>,
    pub parsed: Option<ParsedFirmwareComponentsView>,
}

impl View for Submission {
    type V = SubmissionView;

    open spec fn view(&self) -> SubmissionView {
        SubmissionView { id: self.id@, parsed: self.parsed.deep_view() }
    }
}

/// What the checks make of a document and a token. The document must have a
/// string under `Id`, and the token must not be empty; the identifier is
/// looked at first. A document that has no `BoardSKUs` array passes, without
/// components.
pub open spec fn checked_document(doc: JsonTree, token: Seq<char>) -> Result<
    SubmissionView,
    SubmitErrorKind,
> {
    match doc.member_text("Id"@) {
        None => Err(SubmitErrorKind::MissingId),
        Some(id) => if token.len() == 0 {
            Err(SubmitErrorKind::MissingToken)
        } else {
            Ok(
                SubmissionView {
                    id,
                    parsed: match parsed_manifest(doc) {
                        Ok(p) => Some(p),
                        Err(_) => None,
                    },
                },
            )
        },
    }
}

/// What the checks make of what was read from a text, and a token.
pub open spec fn checked_submission(doc: Option<JsonTree>, token: Seq<char>) -> Result<
    SubmissionView,
    SubmitErrorKind,
> {
    match doc {
        None => Err(SubmitErrorKind::InvalidJson),
        Some(d) => checked_document(d, token),
    }
}

/// The view of a check's result.
pub open spec fn submit_result_view(r: Result<Submission, SubmitError>) -> Result<
    SubmissionView,
    SubmitErrorKind,
> {
    match r {
        Ok(s) => Ok(s@),
        Err(e) => Err(e.kind()),
    }
}

/// Checks a manifest document and the token that came with it.
pub fn check_document(doc: &JsonValue, token: &str) -> (r: Result<Submission, SubmitError>)
    ensures
        submit_result_view(r) == checked_document(doc@, token@),
{
    let id = match doc.get_str("Id") {
        Some(id) => id.to_owned(),
        None => {
            return Err(SubmitError::MissingId);
        },
    };
    if token.is_empty() {
        return Err(SubmitError::MissingToken);
    }
    let parsed = match parse_rack_firmware_json(doc) {
        Ok(p) => Some(p),
        Err(_) => None,
    };
    Ok(Submission { id, parsed })
}

/// Checks a manifest as it is handed in: the text must be a JSON document
/// with a string under `Id`, and a token must come with it.
pub fn check_submission(config_json: &str, token: &str) -> (r: Result<Submission, SubmitError>)
    ensures
        submit_result_view(r) == checked_submission(json_of_text(config_json@), token@),
{
    match parse_json(config_json) {
        Ok(doc) => check_document(&doc, token),
        Err(text) => Err(SubmitError::InvalidJson(text)),
    }
}

/// The text of an error.
pub fn submit_error_message(error: &SubmitError) -> (r: String)
    ensures
        r@ == match error {
            SubmitError::InvalidJson(text) => "Invalid JSON: "@ + text@,
            SubmitError::MissingId => "JSON must contain 'Id' field to use as identifier"@,
            SubmitError::MissingToken => "Artifactory token is required"@,
        },
{
    match error {
        SubmitError::InvalidJson(text) => crate::text::concat("Invalid JSON: ", text.as_str()),
        SubmitError::MissingId => "JSON must contain 'Id' field to use as identifier".to_owned(),
        SubmitError::MissingToken => "Artifactory token is required".to_owned(),
    }
}

} // verus!
