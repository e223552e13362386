//! The one call into the JSON parser: from the payload's text to a document.

use vstd::prelude::*;

verus! {

/// `serde_json::Value`, a parsed JSON document, carried through as an opaque
/// value.
#[verifier::external_type_specification]
#[verifier::external_body]
pub struct ExJsonValue(serde_json::Value);

/// Whether `serde_json` accepts `text` as one JSON document.
pub uninterp spec fn is_json_text(text: Seq<char>) -> bool;

/// Calls `serde_json::from_str` for a `serde_json::Value`.
///
/// Trusted: the parser's verdict depends on the text alone, so success is
/// named by [`is_json_text`]. Nothing is claimed of the document or of the
/// diagnostic.
#[verifier::external_body]
pub(crate) fn parse_json(text: &str) -> (r: Result<serde_json::Value, serde_json::Error>)
    ensures
        r is Ok <==> is_json_text(text@),
{
    serde_json::from_str::<serde_json::Value>(text)
}

} // verus!
