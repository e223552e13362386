//! The errors that a fetch of the alert feed can end in.

use vstd::prelude::*;

verus! {

/// `serde_json::Error`, carried through as an opaque value.
#[verifier::external_type_specification]
#[verifier::external_body]
pub struct ExJsonError(serde_json::Error);

/// `reqwest::Error`, carried through as an opaque value.
#[verifier::external_type_specification]
#[verifier::external_body]
pub struct ExTransportError(reqwest::Error);

/// Why no warning list could be produced.
#[derive(Debug)]
pub enum AlertError {
    /// The payload is not the JSON document that was expected; holds the
    /// parser's diagnostic.
    DeserializationError(serde_json::Error),
    /// The response body is not wrapped in the expected call.
    ResponseProcessingError,
    /// The request failed; holds the transport's error.
    RequestResponseError(reqwest::Error),
    /// A timestamp lies outside the range of representable calendar times.
    DateParsingError,
}

impl From<reqwest::Error> for AlertError {
    fn from(value: reqwest::Error) -> (r: Self) {
        AlertError::RequestResponseError(value)
    }
}

impl vstd::std_specs::convert::FromSpecImpl<reqwest::Error> for AlertError {
    open spec fn obeys_from_spec() -> bool {
        true
    }

    open spec fn from_spec(value: reqwest::Error) -> Self {
        AlertError::RequestResponseError(value)
    }
}

impl From<serde_json::Error> for AlertError {
    fn from(value: serde_json::Error) -> (r: Self) {
        AlertError::DeserializationError(value)
    }
}

impl vstd::std_specs::convert::FromSpecImpl<serde_json::Error> for AlertError {
    open spec fn obeys_from_spec() -> bool {
        true
    }

    open spec fn from_spec(value: serde_json::Error) -> Self {
        AlertError::DeserializationError(value)
    }
}

} // verus!
