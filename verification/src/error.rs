//! The error kinds a fetch can surface.

use vstd::prelude::*;
use crate::numbers::u64_dec_str;
use crate::numbers::u64_to_dec_string;

verus! {

/// What a fetch operation can fail with.
///
/// A transport failure and a deserialization failure carry the underlying
/// error's message; an invalid war id (HTTP 400) carries the requested URL;
/// any other non-success response carries the numeric status code.
#[derive(Debug)]
pub enum HelldiversError {
    RequestError(String),
    JsonError(String),
    APIError(u16),
    InvalidWarId(String),
}

impl HelldiversError {
    /// The diagnostic line of this error.
    pub open spec fn describe_spec(self) -> Seq<char> {
        match self {
            HelldiversError::RequestError(m) => "Request error: "@ + m@,
            HelldiversError::JsonError(m) => "JSON deserialization error: "@ + m@,
            HelldiversError::APIError(code) => "API error: "@ + u64_dec_str(code as nat),
            HelldiversError::InvalidWarId(url) => "Invalid war ID: "@ + url@,
        }
    }

    /// Render this error as one diagnostic line.
    pub fn describe(&self) -> (r: String)
        ensures
            r@ == self.describe_spec(),
    {
        match self {
            HelldiversError::RequestError(m) => {
                let mut r = String::from_str("Request error: ");
                r.append(m.as_str());
                r
            },
            HelldiversError::JsonError(m) => {
                let mut r = String::from_str("JSON deserialization error: ");
                r.append(m.as_str());
                r
            },
            HelldiversError::APIError(code) => {
                let mut r = String::from_str("API error: ");
                r.append(u64_to_dec_string(*code as u64).as_str());
                r
            },
            HelldiversError::InvalidWarId(url) => {
                let mut r = String::from_str("Invalid war ID: ");
                r.append(url.as_str());
                r
            },
        }
    }
}

} // verus!
