//! The ways building a header map can fail.
use vstd::prelude::*;

verus! {

/// Why a header specification could not become a header map.
#[derive(Debug, Clone, Copy, PartialEq, Eq, Structural)]
pub enum HeaderError {
    /// A comma-separated segment has no colon, or an empty name or value.
    MalformedHeaderSpec,
    /// A name holds a character outside the HTTP token grammar.
    InvalidHeaderName,
    /// A value holds a control character other than horizontal tab.
    InvalidHeaderValue,
    /// The header map refused another entry: it is at its capacity.
    TooManyHeaders,
}

impl HeaderError {
    /// A short description of the error.
    pub fn message(&self) -> (r: &'static str)
        ensures
            r@ == match self {
                HeaderError::MalformedHeaderSpec => "malformed header specification"@,
                HeaderError::InvalidHeaderName => "invalid header name"@,
                HeaderError::InvalidHeaderValue => "invalid header value"@,
                HeaderError::TooManyHeaders => "too many headers"@,
            },
    {
        match self {
            HeaderError::MalformedHeaderSpec => "malformed header specification",
            HeaderError::InvalidHeaderName => "invalid header name",
            HeaderError::InvalidHeaderValue => "invalid header value",
            HeaderError::TooManyHeaders => "too many headers",
        }
    }
}

} // verus!
