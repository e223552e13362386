//! The wrapper around the payload: a call with the JSON document as its
//! argument.

use crate::error::AlertError;
use crate::json::{is_json_text, parse_json};
use vstd::prelude::*;
use vstd::string::StrSliceExecFns;

verus! {

/// What every response starts with.
pub open spec fn envelope_prefix() -> Seq<char> {
    "warnWetter.loadWarnings("@
}

/// What every response ends with.
pub open spec fn envelope_suffix() -> Seq<char> {
    ");"@
}

/// The response starts with the prefix, and what follows the prefix ends
/// with the suffix.
pub open spec fn has_envelope(text: Seq<char>) -> bool {
    &&& envelope_prefix().is_prefix_of(text)
    &&& envelope_suffix().is_suffix_of(text.skip(envelope_prefix().len() as int))
}

/// The text strictly between prefix and suffix.
pub open spec fn payload_of(text: Seq<char>) -> Seq<char>
    recommends
        has_envelope(text),
{
    text.subrange(envelope_prefix().len() as int, text.len() - envelope_suffix().len())
}

/// Whether `pat` stands in `text` at position `from`.
pub open spec fn occurs_at(text: Seq<char>, from: int, pat: Seq<char>) -> bool {
    &&& 0 <= from
    &&& from + pat.len() <= text.len()
    &&& text.subrange(from, from + pat.len()) == pat
}

/// Compares `pat` with the text at `from`, character by character.
fn matches_at(text: &str, from: usize, pat: &str) -> (r: bool)
    requires
        from + pat@.len() <= text@.len() <= usize::MAX,
    ensures
        r == occurs_at(text@, from as int, pat@),
{
    let m: usize = pat.unicode_len();
    let mut i: usize = 0;
    while i < m
        invariant
            m == pat@.len(),
            from + m <= text@.len() <= usize::MAX,
            i <= m,
            forall|j: int| 0 <= j < i ==> text@[from + j] == pat@[j],
        decreases m - i,
    {
        if text.get_char(from + i) != pat.get_char(i) {
            proof {
                let sub = text@.subrange(from as int, from + m);
                assert(sub[i as int] != pat@[i as int]);
            }
            return false;
        }
        i = i + 1;
    }
    proof {
        assert(text@.subrange(from as int, from + m) =~= pat@);
    }
    true
}

/// Strips the wrapper from a response body.
///
/// Returns the payload where the body has the wrapper, and
/// `ResponseProcessingError` where it has not.
pub fn unwrap_envelope(text: &str) -> (r: Result<&str, AlertError>)
    ensures
        has_envelope(text@) ==> (r matches Ok(p) && p@ == payload_of(text@)),
        !has_envelope(text@) ==> r matches Err(AlertError::ResponseProcessingError),
{
    let prefix = "warnWetter.loadWarnings(";
    let suffix = ");";
    let n: usize = text.unicode_len();
    let pl: usize = prefix.unicode_len();
    let sl: usize = suffix.unicode_len();
    if n < pl || n - pl < sl {
        return Err(AlertError::ResponseProcessingError);
    }
    if !matches_at(text, 0, prefix) {
        return Err(AlertError::ResponseProcessingError);
    }
    proof {
        let rest = text@.skip(pl as int);
        assert(rest.subrange(rest.len() - sl, rest.len() as int) =~= text@.subrange(
            n - sl,
            n as int,
        ));
    }
    if !matches_at(text, n - sl, suffix) {
        return Err(AlertError::ResponseProcessingError);
    }
    Ok(text.substring_char(pl, n - sl))
}

/// Strips the wrapper from a response body and parses the payload as JSON.
///
/// A body without the wrapper is refused before any parsing; a payload that
/// the parser refuses gives `DeserializationError` with its diagnostic.
pub fn decode_payload(text: &str) -> (r: Result<serde_json::Value, AlertError>)
    ensures
        !has_envelope(text@) ==> r matches Err(AlertError::ResponseProcessingError),
        has_envelope(text@) && !is_json_text(payload_of(text@)) ==> r matches Err(
            AlertError::DeserializationError(_),
        ),
        has_envelope(text@) && is_json_text(payload_of(text@)) ==> r is Ok,
{
    let payload = match unwrap_envelope(text) {
        Ok(p) => p,
        Err(e) => {
            return Err(e);
        },
    };
    match parse_json(payload) {
        Ok(document) => Ok(document),
        Err(e) => Err(AlertError::from(e)),
    }
}

} // verus!
