//! The closed taxonomy of parse failures.

use vstd::prelude::*;

verus! {

/// A request-line parse failure. Each kind carries a fixed human-readable
/// message, rendered by [`ParseError::message`], and no payload.
#[derive(Debug, Clone, Copy, PartialEq, Eq, Structural)]
pub enum ParseError {
    /// The request is malformed in a way no finer kind covers.
    InvalidRequest,
    /// The protocol token is not a supported protocol version.
    InvalidProtocol,
    /// The buffer is not valid UTF-8.
    InvalidEncoding,
    /// The method token is not a supported HTTP method.
    InvalidMethod,
    /// The request line carries no path token.
    InvalidPath,
    /// A query-string fragment carries no `=` separator.
    InvalidQuery,
}

impl ParseError {
    /// The fixed message text of this failure kind.
    pub open spec fn spec_message(self) -> Seq<char> {
        match self {
            ParseError::InvalidRequest => "Invalid Request"@,
            ParseError::InvalidProtocol => "Invalid Protocol"@,
            ParseError::InvalidEncoding => "Invalid Encoding"@,
            ParseError::InvalidMethod => "Invalid Method"@,
            ParseError::InvalidPath => "Invalid Path"@,
            ParseError::InvalidQuery => "Invalid Query"@,
        }
    }

    /// Renders the human-readable message of this failure kind.
    pub fn message(&self) -> (r: String)
        ensures
            r@ == self.spec_message(),
    {
        match self {
            ParseError::InvalidRequest => String::from_str("Invalid Request"),
            ParseError::InvalidProtocol => String::from_str("Invalid Protocol"),
            ParseError::InvalidEncoding => String::from_str("Invalid Encoding"),
            ParseError::InvalidMethod => String::from_str("Invalid Method"),
            ParseError::InvalidPath => String::from_str("Invalid Path"),
            ParseError::InvalidQuery => String::from_str("Invalid Query"),
        }
    }
}

} // verus!
