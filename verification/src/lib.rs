//! A verified HTTP/1.1 request-line and query-string parser.
//!
//! The library turns a fixed-size byte buffer, as read from a TCP
//! connection, into a typed [`request::Request`] value: a method, a path
//! with its query parameters, and a protocol version. Malformed input is
//! rejected with a precise [`error::ParseError`] kind. The connection
//! policy that feeds the parser lives in [`server`].

pub mod error;
pub mod method;
pub mod path;
pub mod protocol;
pub mod query;
pub mod request;
pub mod scan;
pub mod server;
