//! The closed set of HTTP methods and its case-insensitive token parser.

use vstd::prelude::*;
use vstd::string::*;
use crate::error::ParseError;

verus! {

/// An HTTP method. The set is closed: no custom methods are permitted.
#[derive(Debug, Clone, Copy, PartialEq, Eq, Structural)]
pub enum Method {
    Get,
    Head,
    Post,
    Put,
    Delete,
    Connect,
    Options,
    Trace,
    Patch,
}

/// The code point of `c`, with an ASCII upper-case letter folded to its
/// lower-case counterpart.
pub open spec fn lower(c: char) -> u32 {
    if 65 <= c as u32 && c as u32 <= 90 {
        (c as u32 + 32) as u32
    } else {
        c as u32
    }
}

/// Character-wise equality of `a` and `b` up to ASCII case.
pub open spec fn eq_ignore_case(a: Seq<char>, b: Seq<char>) -> bool {
    a.len() == b.len() && forall|i: int| 0 <= i < a.len() ==> lower(a[i]) == lower(b[i])
}

/// The canonical token of a method, as it appears on the wire.
pub open spec fn spec_method_token(m: Method) -> Seq<char> {
    match m {
        Method::Get => "GET"@,
        Method::Head => "HEAD"@,
        Method::Post => "POST"@,
        Method::Put => "PUT"@,
        Method::Delete => "DELETE"@,
        Method::Connect => "CONNECT"@,
        Method::Options => "OPTIONS"@,
        Method::Trace => "TRACE"@,
        Method::Patch => "PATCH"@,
    }
}

/// The method a token denotes: a case-insensitive match against the closed
/// method set, or `None` for every other token.
pub open spec fn spec_parse_method(s: Seq<char>) -> Option<Method> {
    if eq_ignore_case(s, "GET"@) {
        Some(Method::Get)
    } else if eq_ignore_case(s, "HEAD"@) {
        Some(Method::Head)
    } else if eq_ignore_case(s, "POST"@) {
        Some(Method::Post)
    } else if eq_ignore_case(s, "PUT"@) {
        Some(Method::Put)
    } else if eq_ignore_case(s, "DELETE"@) {
        Some(Method::Delete)
    } else if eq_ignore_case(s, "CONNECT"@) {
        Some(Method::Connect)
    } else if eq_ignore_case(s, "OPTIONS"@) {
        Some(Method::Options)
    } else if eq_ignore_case(s, "TRACE"@) {
        Some(Method::Trace)
    } else if eq_ignore_case(s, "PATCH"@) {
        Some(Method::Patch)
    } else {
        None
    }
}

/// Folds an ASCII upper-case letter to lower case, as a code point.
fn char_lower(c: char) -> (r: u32)
    ensures
        r == lower(c),
{
    let u = c as u32;
    if 65 <= u && u <= 90 {
        u + 32
    } else {
        u
    }
}

/// Compares two tokens character by character, ignoring ASCII case.
fn eq_ignore_ascii_case(a: &str, b: &str) -> (r: bool)
    ensures
        r == eq_ignore_case(a@, b@),
{
    let na = a.unicode_len();
    let nb = b.unicode_len();
    if na != nb {
        return false;
    }
    let mut i: usize = 0;
    while i < na
        invariant
            na == a@.len(),
            nb == b@.len(),
            na == nb,
            0 <= i <= na,
            forall|j: int| 0 <= j < i ==> lower(a@[j]) == lower(b@[j]),
        decreases na - i,
    {
        if char_lower(a.get_char(i)) != char_lower(b.get_char(i)) {
            return false;
        }
        i = i + 1;
    }
    true
}

impl Method {
    /// Parses a method token: a case-insensitive exact match against the
    /// method set; any other token is an `InvalidMethod` failure.
    pub fn try_from(token: &str) -> (r: Result<Method, ParseError>)
        ensures
            match spec_parse_method(token@) {
                Some(m) => r == Ok::<Method, ParseError>(m),
                None => r == Err::<Method, ParseError>(ParseError::InvalidMethod),
            },
    {
        if eq_ignore_ascii_case(token, "GET") {
            Ok(Method::Get)
        } else if eq_ignore_ascii_case(token, "HEAD") {
            Ok(Method::Head)
        } else if eq_ignore_ascii_case(token, "POST") {
            Ok(Method::Post)
        } else if eq_ignore_ascii_case(token, "PUT") {
            Ok(Method::Put)
        } else if eq_ignore_ascii_case(token, "DELETE") {
            Ok(Method::Delete)
        } else if eq_ignore_ascii_case(token, "CONNECT") {
            Ok(Method::Connect)
        } else if eq_ignore_ascii_case(token, "OPTIONS") {
            Ok(Method::Options)
        } else if eq_ignore_ascii_case(token, "TRACE") {
            Ok(Method::Trace)
        } else if eq_ignore_ascii_case(token, "PATCH") {
            Ok(Method::Patch)
        } else {
            Err(ParseError::InvalidMethod)
        }
    }
}

/// Law: a token denotes a method exactly when it matches that method's
/// canonical token up to ASCII case; distinct methods never compete for one
/// token.
pub proof fn lemma_method_case_insensitive(s: Seq<char>, m: Method)
    ensures
        spec_parse_method(s) == Some(m) <==> eq_ignore_case(s, spec_method_token(m)),
{
    reveal_strlit("GET");
    reveal_strlit("HEAD");
    reveal_strlit("POST");
    reveal_strlit("PUT");
    reveal_strlit("DELETE");
    reveal_strlit("CONNECT");
    reveal_strlit("OPTIONS");
    reveal_strlit("TRACE");
    reveal_strlit("PATCH");
    if eq_ignore_case(s, spec_method_token(m)) {
        match m {
            Method::Put => {
                if eq_ignore_case(s, "GET"@) {
                    assert(lower(s[0]) == lower('G'));
                    assert(lower(s[0]) == lower('P'));
                }
            },
            Method::Post => {
                if eq_ignore_case(s, "HEAD"@) {
                    assert(lower(s[0]) == lower('H'));
                    assert(lower(s[0]) == lower('P'));
                }
            },
            Method::Options => {
                if eq_ignore_case(s, "CONNECT"@) {
                    assert(lower(s[0]) == lower('C'));
                    assert(lower(s[0]) == lower('O'));
                }
            },
            Method::Patch => {
                if eq_ignore_case(s, "TRACE"@) {
                    assert(lower(s[0]) == lower('T'));
                    assert(lower(s[0]) == lower('P'));
                }
            },
            _ => {},
        }
    }
}

/// Law: a token that matches no method token, up to ASCII case, is rejected.
pub proof fn lemma_method_rejects_unknown(s: Seq<char>)
    requires
        forall|m: Method| !eq_ignore_case(s, #[trigger] spec_method_token(m)),
    ensures
        spec_parse_method(s) is None,
{
    assert(!eq_ignore_case(s, spec_method_token(Method::Get)));
    assert(!eq_ignore_case(s, spec_method_token(Method::Head)));
    assert(!eq_ignore_case(s, spec_method_token(Method::Post)));
    assert(!eq_ignore_case(s, spec_method_token(Method::Put)));
    assert(!eq_ignore_case(s, spec_method_token(Method::Delete)));
    assert(!eq_ignore_case(s, spec_method_token(Method::Connect)));
    assert(!eq_ignore_case(s, spec_method_token(Method::Options)));
    assert(!eq_ignore_case(s, spec_method_token(Method::Trace)));
    assert(!eq_ignore_case(s, spec_method_token(Method::Patch)));
}

} // verus!
