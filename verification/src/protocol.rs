//! The supported protocol versions and their token parser.

use vstd::prelude::*;
use crate::error::ParseError;
use crate::scan::str_eq;

verus! {

/// A supported protocol version. Only HTTP/1.1 is recognized.
#[derive(Debug, Clone, Copy, PartialEq, Eq, Structural)]
pub enum Protocol {
    Http1_1,
}

/// The protocol a token denotes: a case-sensitive exact match of the literal
/// `HTTP/1.1`, or `None` for every other token.
pub open spec fn spec_parse_protocol(s: Seq<char>) -> Option<Protocol> {
    if s == "HTTP/1.1"@ {
        Some(Protocol::Http1_1)
    } else {
        None
    }
}

impl Protocol {
    /// Parses a protocol token: the exact literal `HTTP/1.1`, in that case;
    /// any other token is an `InvalidProtocol` failure.
    pub fn try_from(token: &str) -> (r: Result<Protocol, ParseError>)
        ensures
            match spec_parse_protocol(token@) {
                Some(p) => r == Ok::<Protocol, ParseError>(p),
                None => r == Err::<Protocol, ParseError>(ParseError::InvalidProtocol),
            },
    {
        if str_eq(token, "HTTP/1.1") {
            Ok(Protocol::Http1_1)
        } else {
            Err(ParseError::InvalidProtocol)
        }
    }
}

} // verus!
