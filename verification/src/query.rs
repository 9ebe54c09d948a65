//! Query parameters and the query-string parser.
//!
//! A query string is the text after `?`: fragments joined by `&`, each
//! fragment a `key=value` pair split at its first `=`. Repeated keys
//! accumulate their values, in input order, under one entry; entries appear
//! in order of each key's first occurrence.

use vstd::prelude::*;
use vstd::string::*;
use crate::error::ParseError;
use crate::scan::{find_char, find_char_at, lemma_find_char_bound, str_eq};

verus! {

/// A parameter name paired with its ordered list of values.
#[derive(Debug, PartialEq, Eq)]
pub struct Query {
    pub name: String,
    pub values: Vec<String>,
}

/// The mathematical value of a [`Query`].
#[verifier::ext_equal]
pub struct QueryModel {
    pub name: Seq<char>,
    pub values: Seq<Seq<char>>,
}

/// The text of each value, in order.
pub open spec fn values_model(values: Seq<String>) -> Seq<Seq<char>> {
    values.map_values(|v: String| v@)
}

impl View for Query {
    type V = QueryModel;

    open spec fn view(&self) -> QueryModel {
        QueryModel { name: self.name@, values: values_model(self.values@) }
    }
}

impl Query {
    /// Pairs a parameter name with its values.
    pub fn new(name: String, values: Vec<String>) -> (r: Self)
        ensures
            r@.name == name@,
            r@.values == values_model(values@),
    {
        Query { name, values }
    }
}

/// The mathematical value of a parsed query list.
pub open spec fn queries_model(queries: Seq<Query>) -> Seq<QueryModel> {
    queries.map_values(|q: Query| q@)
}

/// Whether some entry of `qs` carries the parameter name `name`.
pub open spec fn has_key(qs: Seq<QueryModel>, name: Seq<char>) -> bool {
    exists|j: int| 0 <= j < qs.len() && qs[j].name == name
}

/// The index of the entry of `qs` carrying `name`; meaningful only when
/// `has_key(qs, name)` holds and the names of `qs` are distinct.
pub open spec fn key_at(qs: Seq<QueryModel>, name: Seq<char>) -> int {
    choose|j: int| 0 <= j < qs.len() && qs[j].name == name
}

/// No two entries of `qs` share a parameter name.
pub open spec fn distinct_keys(qs: Seq<QueryModel>) -> bool {
    forall|j: int, k: int| 0 <= j < k < qs.len() ==> qs[j].name != qs[k].name
}

/// One `key=value` pair folded into an accumulated entry list: the value is
/// appended under its key's entry when one exists, and a fresh entry is
/// appended otherwise.
pub open spec fn spec_group_step(prev: Seq<QueryModel>, p: (Seq<char>, Seq<char>)) -> Seq<
    QueryModel,
> {
    if has_key(prev, p.0) {
        let j = key_at(prev, p.0);
        prev.update(j, QueryModel { name: prev[j].name, values: prev[j].values.push(p.1) })
    } else {
        prev.push(QueryModel { name: p.0, values: seq![p.1] })
    }
}

/// The `key=value` pairs accumulated, left to right, into one entry per
/// unique key.
pub open spec fn spec_group(pairs: Seq<(Seq<char>, Seq<char>)>) -> Seq<QueryModel>
    decreases pairs.len(),
{
    if pairs.len() == 0 {
        Seq::empty()
    } else {
        spec_group_step(spec_group(pairs.drop_last()), pairs.last())
    }
}

/// The `&`-separated fragments of `s`. The split is total: a string without
/// `&` is one fragment, even when empty.
pub open spec fn spec_fragments(s: Seq<char>) -> Seq<Seq<char>>
    decreases s.len(),
{
    let i = find_char(s, '&');
    if i < s.len() {
        seq![s.take(i as int)] + spec_fragments(s.skip(i as int + 1))
    } else {
        seq![s]
    }
}

/// Each fragment split at its first `=` into a `(key, value)` pair; `None`
/// when some fragment carries no `=` or an empty key.
pub open spec fn spec_pairs(frags: Seq<Seq<char>>) -> Option<Seq<(Seq<char>, Seq<char>)>>
    decreases frags.len(),
{
    if frags.len() == 0 {
        Some(Seq::empty())
    } else {
        let f = frags[0];
        let i = find_char(f, '=');
        if 1 <= i && i < f.len() {
            match spec_pairs(frags.skip(1)) {
                Some(rest) => Some(
                    seq![(f.take(i as int), f.skip(i as int + 1))] + rest,
                ),
                None => None,
            }
        } else {
            None
        }
    }
}

/// The entries a query string denotes: one per unique key, values in input
/// order, entries in order of first occurrence; `None` when some fragment
/// carries no `=` or an empty key. An empty query string has no fragments
/// and denotes the empty entry list.
pub open spec fn spec_parse_queries(s: Seq<char>) -> Option<Seq<QueryModel>> {
    if s.len() == 0 {
        Some(Seq::empty())
    } else {
        match spec_pairs(spec_fragments(s)) {
            Some(ps) => Some(spec_group(ps)),
            None => None,
        }
    }
}

/// Splitting fragments distributes over concatenation of fragment lists.
proof fn lemma_spec_pairs_append(a: Seq<Seq<char>>, b: Seq<Seq<char>>)
    ensures
        spec_pairs(a + b) == match (spec_pairs(a), spec_pairs(b)) {
            (Some(x), Some(y)) => Some(x + y),
            _ => None::<Seq<(Seq<char>, Seq<char>)>>,
        },
    decreases a.len(),
{
    if a.len() == 0 {
        assert(a + b =~= b);
        match spec_pairs(b) {
            Some(y) => {
                assert(Seq::<(Seq<char>, Seq<char>)>::empty() + y =~= y);
            },
            None => {},
        }
    } else {
        assert((a + b)[0] == a[0]);
        assert((a + b).skip(1) =~= a.skip(1) + b);
        lemma_spec_pairs_append(a.skip(1), b);
        let f = a[0];
        let i = find_char(f, '=');
        if 1 <= i && i < f.len() {
            let p = (f.take(i as int), f.skip(i as int + 1));
            match (spec_pairs(a.skip(1)), spec_pairs(b)) {
                (Some(x1), Some(y)) => {
                    assert(seq![p] + (x1 + y) =~= (seq![p] + x1) + y);
                },
                _ => {},
            }
        }
    }
}

/// The keys of an accumulated entry list are distinct.
proof fn lemma_group_distinct(pairs: Seq<(Seq<char>, Seq<char>)>)
    ensures
        distinct_keys(spec_group(pairs)),
    decreases pairs.len(),
{
    if pairs.len() > 0 {
        lemma_group_distinct(pairs.drop_last());
        let prev = spec_group(pairs.drop_last());
        let p = pairs.last();
        if has_key(prev, p.0) {
            let j = key_at(prev, p.0);
            assert(0 <= j < prev.len() && prev[j].name == p.0);
        }
    }
}

/// Keys split from fragments are never empty.
proof fn lemma_pairs_keys_nonempty(frags: Seq<Seq<char>>, ps: Seq<(Seq<char>, Seq<char>)>)
    requires
        spec_pairs(frags) == Some(ps),
    ensures
        forall|j: int| 0 <= j < ps.len() ==> #[trigger] ps[j].0.len() >= 1,
    decreases frags.len(),
{
    if frags.len() > 0 {
        let f = frags[0];
        let i = find_char(f, '=');
        let rest = spec_pairs(frags.skip(1)).unwrap();
        lemma_pairs_keys_nonempty(frags.skip(1), rest);
        assert forall|j: int| 0 <= j < ps.len() implies #[trigger] ps[j].0.len() >= 1 by {
            if j == 0 {
                assert(ps[0].0 == f.take(i as int));
            } else {
                assert(ps[j] == rest[j - 1]);
            }
        }
    }
}

/// Accumulated entry names all come from keys.
proof fn lemma_group_names_nonempty(ps: Seq<(Seq<char>, Seq<char>)>)
    requires
        forall|j: int| 0 <= j < ps.len() ==> #[trigger] ps[j].0.len() >= 1,
    ensures
        forall|j: int| 0 <= j < spec_group(ps).len() ==> #[trigger] spec_group(ps)[j].name.len()
            >= 1,
    decreases ps.len(),
{
    if ps.len() > 0 {
        assert(forall|j: int| 0 <= j < ps.drop_last().len() ==> #[trigger] ps.drop_last()[j].0
            == ps[j].0);
        lemma_group_names_nonempty(ps.drop_last());
        let prev = spec_group(ps.drop_last());
        let p = ps.last();
        assert(p.0.len() >= 1);
        if has_key(prev, p.0) {
            let j = key_at(prev, p.0);
            assert(0 <= j < prev.len() && prev[j].name == p.0);
        }
    }
}

/// Law: the entries a query string denotes never carry an empty name; an
/// `=`-less or empty-key fragment is rejected instead.
pub proof fn lemma_query_names_nonempty(s: Seq<char>)
    ensures
        spec_parse_queries(s) matches Some(qs) ==> forall|j: int|
            0 <= j < qs.len() ==> #[trigger] qs[j].name.len() >= 1,
{
    if s.len() > 0 && spec_pairs(spec_fragments(s)) is Some {
        let ps = spec_pairs(spec_fragments(s)).unwrap();
        lemma_pairs_keys_nonempty(spec_fragments(s), ps);
        lemma_group_names_nonempty(ps);
    }
}

/// Folds one `key=value` pair into the accumulated entries, as
/// [`spec_group_step`] says.
fn insert_query(queries: &mut Vec<Query>, name: &str, value: &str)
    requires
        distinct_keys(queries_model(old(queries)@)),
    ensures
        queries_model(final(queries)@) == spec_group_step(
            queries_model(old(queries)@),
            (name@, value@),
        ),
{
    let ghost prev = queries_model(queries@);
    let n = queries.len();
    let mut qi: usize = 0;
    while qi < n
        invariant
            n == queries@.len(),
            0 <= qi <= n,
            queries@ == old(queries)@,
            prev == queries_model(queries@),
            distinct_keys(prev),
            forall|j: int| 0 <= j < qi ==> queries_model(queries@)[j].name != name@,
        decreases n - qi,
    {
        if str_eq(queries[qi].name.as_str(), name) {
            proof {
                assert(prev.len() == queries@.len());
                assert(prev[qi as int] == queries@[qi as int]@);
                assert(prev[qi as int].name == name@);
                assert(has_key(prev, name@));
                let j = key_at(prev, name@);
                assert(0 <= j < prev.len() && prev[j].name == name@);
                if j != qi as int {
                    assert(distinct_keys(prev));
                    assert(false);
                }
            }
            let mut entry = queries.remove(qi);
            entry.values.push(String::from_str(value));
            queries.insert(qi, entry);
            proof {
                assert(queries@ =~= old(queries)@.update(qi as int, queries@[qi as int]));
                assert(queries_model(queries@) =~~= spec_group_step(prev, (name@, value@)));
            }
            return;
        }
        qi = qi + 1;
    }
    proof {
        assert(!has_key(prev, name@));
    }
    let mut values: Vec<String> = Vec::new();
    values.push(String::from_str(value));
    let entry = Query::new(String::from_str(name), values);
    queries.push(entry);
    proof {
        assert(queries_model(queries@) =~~= spec_group_step(prev, (name@, value@)));
    }
}

/// Parses a query string into its entries: fragments split on `&`, each
/// split at its first `=`, repeated keys accumulated in input order. A
/// fragment without `=`, or with an empty key, is an `InvalidQuery`
/// failure.
pub fn parse_queries(query_string: &str) -> (r: Result<Vec<Query>, ParseError>)
    ensures
        match spec_parse_queries(query_string@) {
            Some(qs) => r matches Ok(v) && queries_model(v@) == qs,
            None => r == Err::<Vec<Query>, ParseError>(ParseError::InvalidQuery),
        },
{
    if query_string.is_empty() {
        let queries: Vec<Query> = Vec::new();
        proof {
            assert(queries_model(queries@) =~= Seq::<QueryModel>::empty());
        }
        return Ok(queries);
    }
    let mut queries: Vec<Query> = Vec::new();
    let mut rem: &str = query_string;
    let ghost mut done_frags: Seq<Seq<char>> = Seq::empty();
    let ghost mut done_pairs: Seq<(Seq<char>, Seq<char>)> = Seq::empty();
    proof {
        assert(done_frags + spec_fragments(query_string@) =~= spec_fragments(query_string@));
        assert(queries_model(queries@) =~= spec_group(done_pairs));
    }
    loop
        invariant
            spec_fragments(query_string@) == done_frags + spec_fragments(rem@),
            spec_pairs(done_frags) == Some(done_pairs),
            queries_model(queries@) == spec_group(done_pairs),
            spec_parse_queries(query_string@) == match spec_pairs(
                spec_fragments(query_string@),
            ) {
                Some(ps) => Some(spec_group(ps)),
                None => None::<Seq<QueryModel>>,
            },
        decreases rem@.len(),
    {
        let n = rem.unicode_len();
        let amp = find_char_at(rem, '&');
        proof {
            lemma_find_char_bound(rem@, '&');
        }
        let frag = rem.substring_char(0, amp);
        let frag_len = frag.unicode_len();
        let eq_pos = find_char_at(frag, '=');
        proof {
            lemma_find_char_bound(frag@, '=');
        }
        if eq_pos == 0 || eq_pos == frag_len {
            proof {
                lemma_spec_pairs_append(done_frags, spec_fragments(rem@));
                if find_char(rem@, '&') < rem@.len() {
                    assert(spec_fragments(rem@)[0] == frag@);
                } else {
                    assert(spec_fragments(rem@) == seq![rem@]);
                    assert(frag@ == rem@.take(n as int));
                    assert(frag@ =~= rem@);
                }
                assert(spec_pairs(spec_fragments(rem@)) is None);
            }
            return Err(ParseError::InvalidQuery);
        }
        let key = frag.substring_char(0, eq_pos);
        let value = frag.substring_char(eq_pos + 1, frag_len);
        proof {
            lemma_group_distinct(done_pairs);
        }
        insert_query(&mut queries, key, value);
        proof {
            let p = (key@, value@);
            lemma_spec_pairs_append(done_frags, seq![frag@]);
            assert(seq![frag@][0] == frag@);
            assert(seq![frag@].skip(1) =~= Seq::<Seq<char>>::empty());
            assert(spec_pairs(Seq::<Seq<char>>::empty()) == Some(
                Seq::<(Seq<char>, Seq<char>)>::empty(),
            ));
            assert(key@ =~= frag@.take(eq_pos as int));
            assert(value@ =~= frag@.skip(eq_pos as int + 1));
            assert(spec_pairs(seq![frag@]) == Some(seq![p] + Seq::<(Seq<char>, Seq<char>)>::empty()));
            assert(seq![p] + Seq::<(Seq<char>, Seq<char>)>::empty() =~= seq![p]);
            assert(spec_pairs(done_frags + seq![frag@]) == Some(done_pairs + seq![p]));
            assert(done_frags.push(frag@) =~= done_frags + seq![frag@]);
            assert(done_pairs.push(p) =~= done_pairs + seq![p]);
            assert((done_pairs.push(p)).drop_last() =~= done_pairs);
            assert(spec_group(done_pairs.push(p)) == spec_group_step(spec_group(done_pairs), p));
            done_frags = done_frags.push(frag@);
            done_pairs = done_pairs.push(p);
        }
        if amp == n {
            proof {
                assert(spec_fragments(rem@) == seq![rem@]);
                assert(frag@ =~= rem@);
                assert(done_frags =~= spec_fragments(query_string@));
                assert(spec_pairs(spec_fragments(query_string@)) == Some(done_pairs));
            }
            return Ok(queries);
        }
        proof {
            assert(spec_fragments(rem@) == seq![frag@] + spec_fragments(
                rem@.skip(amp as int + 1),
            ));
        }
        rem = rem.substring_char(amp + 1, n);
        proof {
            assert(done_frags + spec_fragments(rem@) =~= (done_frags.drop_last() + seq![frag@])
                + spec_fragments(rem@));
            assert((done_frags.drop_last() + seq![frag@]) + spec_fragments(rem@)
                =~= done_frags.drop_last() + (seq![frag@] + spec_fragments(rem@)));
        }
    }
}

} // verus!
