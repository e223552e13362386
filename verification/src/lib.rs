//! Client-side model of the DWD weather alert feed.
//!
//! The feed answers with a JavaScript call wrapped around a JSON document.
//! This crate strips that wrapper, checks that the payload is JSON, and turns
//! the decoded records into a [`WarningList`] whose warnings are ordered by
//! their start time.

pub mod envelope;
pub mod error;
pub mod json;
pub mod list;
pub mod raw;
pub mod sorting;
pub mod timestamp;
pub mod warning;

pub use envelope::{decode_payload, unwrap_envelope};
pub use error::AlertError;
pub use list::WarningList;
pub use raw::{RawGroup, RawResponse, RawWarning};
pub use timestamp::Timestamp;
pub use warning::Warning;
