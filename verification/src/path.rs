//! Paths: a path component together with its parsed query parameters.

use vstd::prelude::*;
use vstd::string::*;
use crate::error::ParseError;
use crate::query::{
    parse_queries, queries_model, spec_parse_queries, Query, QueryModel,
};
use crate::scan::{find_char, find_char_at, lemma_find_char_bound};

verus! {

/// A path with its query parameters. The query list is empty when the path
/// token carries no `?`.
#[derive(Debug, PartialEq, Eq)]
pub struct Path {
    pub path: String,
    pub queries: Vec<Query>,
}

/// The mathematical value of a [`Path`].
#[verifier::ext_equal]
pub struct PathModel {
    pub path: Seq<char>,
    pub queries: Seq<QueryModel>,
}

impl View for Path {
    type V = PathModel;

    open spec fn view(&self) -> PathModel {
        PathModel { path: self.path@, queries: queries_model(self.queries@) }
    }
}

/// The path and query entries a path token denotes: the text before the
/// first `?`, and the entries its query string denotes. A token without `?`
/// is all path, with no entries. A malformed query string is an
/// `InvalidQuery` failure, propagated unchanged.
pub open spec fn spec_parse_path(s: Seq<char>) -> Result<PathModel, ParseError> {
    let i = find_char(s, '?');
    if i < s.len() {
        match spec_parse_queries(s.skip(i as int + 1)) {
            Some(qs) => Ok(PathModel { path: s.take(i as int), queries: qs }),
            None => Err(ParseError::InvalidQuery),
        }
    } else {
        Ok(PathModel { path: s, queries: Seq::empty() })
    }
}

/// Splits a path token at its first `?` and parses what follows as a query
/// string.
pub fn split_path_and_query_string(path_str: &str) -> (r: Result<
    (String, Vec<Query>),
    ParseError,
>)
    ensures
        match spec_parse_path(path_str@) {
            Ok(pm) => r matches Ok(pair) && pair.0@ == pm.path && queries_model(pair.1@)
                == pm.queries,
            Err(e) => r matches Err(e2) && e2 == e,
        },
{
    let n = path_str.unicode_len();
    let qmark = find_char_at(path_str, '?');
    proof {
        lemma_find_char_bound(path_str@, '?');
    }
    if qmark == n {
        let queries: Vec<Query> = Vec::new();
        proof {
            assert(queries_model(queries@) =~= Seq::<QueryModel>::empty());
        }
        return Ok((String::from_str(path_str), queries));
    }
    let path = path_str.substring_char(0, qmark);
    let query_string = path_str.substring_char(qmark + 1, n);
    match parse_queries(query_string) {
        Ok(queries) => Ok((String::from_str(path), queries)),
        Err(e) => Err(e),
    }
}

impl Path {
    /// Parses a path token, as [`split_path_and_query_string`] does.
    pub fn try_from(value: &str) -> (r: Result<Path, ParseError>)
        ensures
            match spec_parse_path(value@) {
                Ok(pm) => r matches Ok(p) && p@ == pm,
                Err(e) => r matches Err(e2) && e2 == e,
            },
    {
        match split_path_and_query_string(value) {
            Ok((path, queries)) => {
                let r = Path { path, queries };
                proof {
                    if spec_parse_path(value@) is Ok {
                        assert(r@ =~~= spec_parse_path(value@).unwrap());
                    }
                }
                Ok(r)
            },
            Err(e) => Err(e),
        }
    }
}

} // verus!
