//! Requests: the typed result of parsing a request line from a fixed-size
//! byte buffer.

use vstd::prelude::*;
use vstd::utf8::{decode_utf8, valid_utf8};
use crate::error::ParseError;
use crate::method::{spec_parse_method, Method};
use crate::path::{spec_parse_path, Path, PathModel};
use crate::protocol::{spec_parse_protocol, Protocol};
use crate::scan::{get_next_token, spec_token};

verus! {

/// The capacity of the read buffer a request line is parsed from.
pub const BUFFER_SIZE: usize = 1024;

/// A header name paired with its value. The request-line parser never fills
/// headers in; the type is an extension point for a header parser.
#[derive(Debug, PartialEq, Eq)]
pub struct Header {
    pub name: String,
    pub value: String,
}

/// The mathematical value of a [`Header`].
#[verifier::ext_equal]
pub struct HeaderModel {
    pub name: Seq<char>,
    pub value: Seq<char>,
}

impl View for Header {
    type V = HeaderModel;

    open spec fn view(&self) -> HeaderModel {
        HeaderModel { name: self.name@, value: self.value@ }
    }
}

/// The text of each header, in order.
pub open spec fn headers_model(headers: Seq<Header>) -> Seq<HeaderModel> {
    headers.map_values(|h: Header| h@)
}

/// A parsed request: one protocol, one method, one path. Headers are always
/// absent in this core.
#[derive(Debug, PartialEq, Eq)]
pub struct Request {
    pub protocol: Protocol,
    pub method: Method,
    pub path: Path,
    pub headers: Option<Vec<Header>>,
}

/// The mathematical value of a [`Request`].
#[verifier::ext_equal]
pub struct RequestModel {
    pub protocol: Protocol,
    pub method: Method,
    pub path: PathModel,
    pub headers: Option<Seq<HeaderModel>>,
}

impl View for Request {
    type V = RequestModel;

    open spec fn view(&self) -> RequestModel {
        RequestModel {
            protocol: self.protocol,
            method: self.method,
            path: self.path@,
            headers: match self.headers {
                Some(hs) => Some(headers_model(hs@)),
                None => None,
            },
        }
    }
}

/// The request a buffer denotes, or the first failure encountered. The
/// buffer is decoded as UTF-8, then the method, path and protocol tokens
/// are taken left to right; a missing token is the failure of the stage
/// that needed it, and a path failure is propagated unchanged, so a
/// malformed query string surfaces as `InvalidQuery`.
pub open spec fn spec_parse_request(bytes: Seq<u8>) -> Result<RequestModel, ParseError> {
    if !valid_utf8(bytes) {
        Err(ParseError::InvalidEncoding)
    } else {
        let text = decode_utf8(bytes);
        match spec_token(text) {
            None => Err(ParseError::InvalidMethod),
            Some((method_tok, rest)) => match spec_parse_method(method_tok) {
                None => Err(ParseError::InvalidMethod),
                Some(method) => match spec_token(rest) {
                    None => Err(ParseError::InvalidPath),
                    Some((path_tok, rest2)) => match spec_parse_path(path_tok) {
                        Err(e) => Err(e),
                        Ok(path) => match spec_token(rest2) {
                            None => Err(ParseError::InvalidProtocol),
                            Some((protocol_tok, _)) => match spec_parse_protocol(protocol_tok) {
                                None => Err(ParseError::InvalidProtocol),
                                Some(protocol) => Ok(
                                    RequestModel { protocol, method, path, headers: None },
                                ),
                            },
                        },
                    },
                },
            },
        }
    }
}

/// The mathematical value of a parse outcome.
pub open spec fn request_result_model(r: Result<Request, ParseError>) -> Result<
    RequestModel,
    ParseError,
> {
    match r {
        Ok(req) => Ok(req@),
        Err(e) => Err(e),
    }
}

/// Relies on `core::str::from_utf8`: it succeeds exactly on well-formed
/// UTF-8 input and returns the text that the bytes encode.
#[verifier::external_body]
fn decode_buffer(bytes: &[u8; BUFFER_SIZE]) -> (r: Option<String>)
    ensures
        r is Some <==> valid_utf8(bytes@),
        r matches Some(s) ==> s@ == decode_utf8(bytes@),
{
    match core::str::from_utf8(bytes) {
        Ok(s) => Some(s.to_owned()),
        Err(_) => None,
    }
}

impl Request {
    /// Parses the request line held in `buffer`, as [`spec_parse_request`]
    /// says: the result is a function of the buffer's bytes alone.
    pub fn try_from(buffer: &[u8; BUFFER_SIZE]) -> (r: Result<Request, ParseError>)
        ensures
            request_result_model(r) == spec_parse_request(buffer@),
    {
        let text = match decode_buffer(buffer) {
            Some(t) => t,
            None => {
                return Err(ParseError::InvalidEncoding);
            },
        };
        let (method_str, rest) = match get_next_token(text.as_str()) {
            Some(pair) => pair,
            None => {
                return Err(ParseError::InvalidMethod);
            },
        };
        let method = match Method::try_from(method_str) {
            Ok(m) => m,
            Err(e) => {
                return Err(e);
            },
        };
        let (path_str, rest2) = match get_next_token(rest) {
            Some(pair) => pair,
            None => {
                return Err(ParseError::InvalidPath);
            },
        };
        let path = match Path::try_from(path_str) {
            Ok(p) => p,
            Err(e) => {
                return Err(e);
            },
        };
        let (protocol_str, _) = match get_next_token(rest2) {
            Some(pair) => pair,
            None => {
                return Err(ParseError::InvalidProtocol);
            },
        };
        let protocol = match Protocol::try_from(protocol_str) {
            Ok(p) => p,
            Err(e) => {
                return Err(e);
            },
        };
        let request = Request { protocol, method, path, headers: None };
        proof {
            assert(request@ =~~= spec_parse_request(buffer@).unwrap());
        }
        Ok(request)
    }
}

/// Law: a successfully parsed request has headers absent and no query entry
/// with an empty name.
pub proof fn lemma_request_invariant(bytes: Seq<u8>)
    ensures
        spec_parse_request(bytes) matches Ok(m) ==> m.headers is None,
        spec_parse_request(bytes) matches Ok(m) ==> forall|j: int|
            0 <= j < m.path.queries.len() ==> #[trigger] m.path.queries[j].name.len() >= 1,
{
    if spec_parse_request(bytes) is Ok {
        let text = decode_utf8(bytes);
        let rest = spec_token(text).unwrap().1;
        let path_tok = spec_token(rest).unwrap().0;
        let i = crate::scan::find_char(path_tok, '?');
        if i < path_tok.len() {
            crate::query::lemma_query_names_nonempty(path_tok.skip(i as int + 1));
        }
    }
}

/// Law: a buffer that is not valid UTF-8 is rejected as `InvalidEncoding`,
/// whatever structure its bytes otherwise have.
pub proof fn lemma_invalid_encoding(bytes: Seq<u8>)
    requires
        !valid_utf8(bytes),
    ensures
        spec_parse_request(bytes) == Err::<RequestModel, ParseError>(ParseError::InvalidEncoding),
{
}

/// Law: parsing keeps no hidden state. Any two parse outcomes that satisfy
/// the parser's contract on equal buffers are equal values.
pub proof fn lemma_parse_deterministic(
    bytes1: Seq<u8>,
    bytes2: Seq<u8>,
    r1: Result<Request, ParseError>,
    r2: Result<Request, ParseError>,
)
    requires
        bytes1 == bytes2,
        request_result_model(r1) == spec_parse_request(bytes1),
        request_result_model(r2) == spec_parse_request(bytes2),
    ensures
        request_result_model(r1) == request_result_model(r2),
{
}

} // verus!
