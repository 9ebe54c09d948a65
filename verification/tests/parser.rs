use reqline::error::ParseError;
use reqline::method::Method;
use reqline::path::Path;
use reqline::protocol::Protocol;
use reqline::query::{parse_queries, Query};
use reqline::request::{Request, BUFFER_SIZE};
use reqline::scan::get_next_token;
use reqline::server::{ConnectionEvent, Server};

fn buffer_with(text: &str) -> [u8; BUFFER_SIZE] {
    let mut buffer = [0u8; BUFFER_SIZE];
    let bytes = text.as_bytes();
    buffer[..bytes.len()].copy_from_slice(bytes);
    buffer
}

#[test]
fn method_tokens_any_ascii_case() {
    assert_eq!(Method::try_from("get"), Ok(Method::Get));
    assert_eq!(Method::try_from("GeT"), Ok(Method::Get));
    assert_eq!(Method::try_from("GET"), Ok(Method::Get));
    assert_eq!(Method::try_from("head"), Ok(Method::Head));
    assert_eq!(Method::try_from("pOsT"), Ok(Method::Post));
    assert_eq!(Method::try_from("Put"), Ok(Method::Put));
    assert_eq!(Method::try_from("DELETE"), Ok(Method::Delete));
    assert_eq!(Method::try_from("connect"), Ok(Method::Connect));
    assert_eq!(Method::try_from("Options"), Ok(Method::Options));
    assert_eq!(Method::try_from("tRACE"), Ok(Method::Trace));
    assert_eq!(Method::try_from("patch"), Ok(Method::Patch));
}

#[test]
fn method_unknown_token_rejected() {
    assert_eq!(Method::try_from("FOO"), Err(ParseError::InvalidMethod));
    assert_eq!(Method::try_from(""), Err(ParseError::InvalidMethod));
    assert_eq!(Method::try_from("GETX"), Err(ParseError::InvalidMethod));
    assert_eq!(Method::try_from("GE"), Err(ParseError::InvalidMethod));
}

#[test]
fn protocol_exact_token_accepted() {
    assert_eq!(Protocol::try_from("HTTP/1.1"), Ok(Protocol::Http1_1));
}

#[test]
fn protocol_wrong_case_or_version_rejected() {
    assert_eq!(Protocol::try_from("http/1.1"), Err(ParseError::InvalidProtocol));
    assert_eq!(Protocol::try_from("HTTP/2"), Err(ParseError::InvalidProtocol));
    assert_eq!(Protocol::try_from(""), Err(ParseError::InvalidProtocol));
}

#[test]
fn path_without_query() {
    let path = Path::try_from("/a/b").unwrap();
    assert_eq!(
        path,
        Path { path: String::from("/a/b"), queries: Vec::new() }
    );
}

#[test]
fn path_with_query() {
    let path = Path::try_from("/a?x=1").unwrap();
    assert_eq!(
        path,
        Path {
            path: String::from("/a"),
            queries: vec![Query::new(String::from("x"), vec![String::from("1")])],
        }
    );
}

#[test]
fn path_with_empty_query_string() {
    let path = Path::try_from("/a?").unwrap();
    assert_eq!(path, Path { path: String::from("/a"), queries: Vec::new() });
}

#[test]
fn queries_repeated_keys_accumulate_in_order() {
    let queries = parse_queries("a=1&a=2&b=3").unwrap();
    assert_eq!(
        queries,
        vec![
            Query::new(String::from("a"), vec![String::from("1"), String::from("2")]),
            Query::new(String::from("b"), vec![String::from("3")]),
        ]
    );
}

#[test]
fn queries_fragment_without_separator_rejected() {
    assert_eq!(parse_queries("a"), Err(ParseError::InvalidQuery));
    assert_eq!(parse_queries("a=1&b"), Err(ParseError::InvalidQuery));
}

#[test]
fn queries_empty_key_rejected() {
    assert_eq!(parse_queries("=1"), Err(ParseError::InvalidQuery));
    assert_eq!(parse_queries("a=1&=2"), Err(ParseError::InvalidQuery));
    assert_eq!(parse_queries("a=1&&b=2"), Err(ParseError::InvalidQuery));
}

#[test]
fn queries_only_first_separator_splits() {
    let queries = parse_queries("a=1=2").unwrap();
    assert_eq!(
        queries,
        vec![Query::new(String::from("a"), vec![String::from("1=2")])]
    );
}

#[test]
fn queries_empty_value_kept() {
    let queries = parse_queries("a=").unwrap();
    assert_eq!(
        queries,
        vec![Query::new(String::from("a"), vec![String::from("")])]
    );
}

#[test]
fn request_full_line_parsed() {
    let buffer = buffer_with("GET /hello?x=1 HTTP/1.1\r\n");
    let request = Request::try_from(&buffer).unwrap();
    assert_eq!(
        request,
        Request {
            protocol: Protocol::Http1_1,
            method: Method::Get,
            path: Path {
                path: String::from("/hello"),
                queries: vec![Query::new(String::from("x"), vec![String::from("1")])],
            },
            headers: None,
        }
    );
}

#[test]
fn request_multibyte_query_value_decoded() {
    let buffer = buffer_with("GET /a?x=\u{e9}\u{1f600} HTTP/1.1\r\n");
    let request = Request::try_from(&buffer).unwrap();
    assert_eq!(
        request.path.queries,
        vec![Query::new(String::from("x"), vec![String::from("\u{e9}\u{1f600}")])]
    );
}

#[test]
fn request_invalid_utf8_rejected() {
    let buffer = [0xffu8; BUFFER_SIZE];
    assert_eq!(Request::try_from(&buffer), Err(ParseError::InvalidEncoding));
}

#[test]
fn request_invalid_utf8_takes_precedence() {
    let mut buffer = buffer_with("GET /hello?x=1 HTTP/1.1\r\n");
    buffer[1023] = 0xff;
    assert_eq!(Request::try_from(&buffer), Err(ParseError::InvalidEncoding));
}

#[test]
fn request_unsupported_protocol_rejected() {
    let buffer = buffer_with("GET /hello HTTP/9.9\r\n");
    assert_eq!(Request::try_from(&buffer), Err(ParseError::InvalidProtocol));
}

#[test]
fn request_unknown_method_rejected() {
    let buffer = buffer_with("BREW /coffee HTTP/1.1\r\n");
    assert_eq!(Request::try_from(&buffer), Err(ParseError::InvalidMethod));
}

#[test]
fn request_malformed_query_rejected() {
    let buffer = buffer_with("GET /hello?x HTTP/1.1\r\n");
    assert_eq!(Request::try_from(&buffer), Err(ParseError::InvalidQuery));
}

#[test]
fn request_missing_method_token_rejected() {
    let buffer = [b'x'; BUFFER_SIZE];
    assert_eq!(Request::try_from(&buffer), Err(ParseError::InvalidMethod));
}

#[test]
fn request_missing_path_token_rejected() {
    let buffer = buffer_with("GET /a");
    assert_eq!(Request::try_from(&buffer), Err(ParseError::InvalidPath));
}

#[test]
fn request_missing_protocol_token_rejected() {
    let buffer = buffer_with("GET /a ");
    assert_eq!(Request::try_from(&buffer), Err(ParseError::InvalidProtocol));
}

#[test]
fn request_parsing_is_idempotent() {
    let buffer = buffer_with("pUt /x?k=v&k=w&n=1 HTTP/1.1\nrest");
    let first = Request::try_from(&buffer);
    let second = Request::try_from(&buffer);
    assert_eq!(first, second);
    assert!(first.is_ok());
}

#[test]
fn tokenizer_splits_at_first_delimiter() {
    assert_eq!(
        get_next_token("GET /x HTTP/1.1\r\n"),
        Some(("GET", "/x HTTP/1.1\r\n"))
    );
    assert_eq!(get_next_token("a\rb"), Some(("a", "b")));
    assert_eq!(get_next_token("a\nb"), Some(("a", "b")));
    assert_eq!(get_next_token("token"), None);
}

#[test]
fn error_messages_fixed_per_kind() {
    assert_eq!(ParseError::InvalidRequest.message(), "Invalid Request");
    assert_eq!(ParseError::InvalidProtocol.message(), "Invalid Protocol");
    assert_eq!(ParseError::InvalidEncoding.message(), "Invalid Encoding");
    assert_eq!(ParseError::InvalidMethod.message(), "Invalid Method");
    assert_eq!(ParseError::InvalidPath.message(), "Invalid Path");
    assert_eq!(ParseError::InvalidQuery.message(), "Invalid Query");
}

#[test]
fn server_keeps_accepting_after_failures() {
    let server = Server::new(String::from("127.0.0.1:8080"));
    let after_accept_failure = server.handle_event(&ConnectionEvent::AcceptFailed);
    assert!(after_accept_failure.continue_accepting);
    assert!(after_accept_failure.outcome.is_none());
    let after_read_failure = server.handle_event(&ConnectionEvent::ReadFailed);
    assert!(after_read_failure.continue_accepting);
    assert!(after_read_failure.outcome.is_none());
    let buffer = buffer_with("GET / HTTP/1.1\r\n");
    let after_request = server.handle_event(&ConnectionEvent::Received(buffer));
    assert!(after_request.continue_accepting);
    let outcome = after_request.outcome.unwrap().unwrap();
    assert_eq!(outcome.method, Method::Get);
}

#[test]
fn server_stores_address() {
    let server = Server::new(String::from("0.0.0.0:1234"));
    assert_eq!(server.address, "0.0.0.0:1234");
}
