//! Character scanning over request-line text.
//!
//! The request line is tokenized by searching for the first occurrence of a
//! delimiter character. `find_from` is the specification of that search; the
//! executable scanners below are proved against it.

use vstd::prelude::*;
use vstd::string::*;

verus! {

/// A request-line delimiter: space, carriage return, or line feed.
pub open spec fn is_delim(c: char) -> bool {
    c == ' ' || c == '\r' || c == '\n'
}

/// Index of the first character of `s` satisfying `f`, or `s.len()` when no
/// character does.
pub open spec fn find_from(s: Seq<char>, f: spec_fn(char) -> bool) -> nat
    decreases s.len(),
{
    if s.len() == 0 {
        0
    } else if f(s[0]) {
        0
    } else {
        1 + find_from(s.skip(1), f)
    }
}

/// Index of the first delimiter of `s`, or `s.len()`.
pub open spec fn find_delim(s: Seq<char>) -> nat {
    find_from(s, |c: char| is_delim(c))
}

/// A scan that saw no match before `i`, and a match at `i` unless `i` is the
/// length, identifies `find_from`.
pub proof fn lemma_find_from_is(s: Seq<char>, f: spec_fn(char) -> bool, i: int)
    requires
        0 <= i <= s.len(),
        forall|j: int| 0 <= j < i ==> !f(s[j]),
        i < s.len() ==> f(s[i]),
    ensures
        find_from(s, f) == i,
    decreases i,
{
    if s.len() > 0 && i > 0 {
        assert(forall|j: int| 0 <= j < i - 1 ==> s.skip(1)[j] == s[j + 1]);
        assert(i - 1 < s.skip(1).len() ==> s.skip(1)[i - 1] == s[i]);
        lemma_find_from_is(s.skip(1), f, i - 1);
    }
}

/// Index of the first occurrence of `c` in `s`, or `s.len()` when `c` does
/// not occur.
pub open spec fn find_char(s: Seq<char>, c: char) -> nat
    decreases s.len(),
{
    if s.len() == 0 {
        0
    } else if s[0] == c {
        0
    } else {
        1 + find_char(s.skip(1), c)
    }
}

/// `find_char` returns the least index holding `c`.
pub proof fn lemma_find_char_bound(s: Seq<char>, c: char)
    ensures
        find_char(s, c) <= s.len(),
        find_char(s, c) < s.len() ==> s[find_char(s, c) as int] == c,
        forall|j: int| 0 <= j < find_char(s, c) ==> s[j] != c,
    decreases s.len(),
{
    if s.len() > 0 && s[0] != c {
        lemma_find_char_bound(s.skip(1), c);
        assert forall|j: int| 0 <= j < find_char(s, c) implies s[j] != c by {
            if j > 0 {
                assert(s.skip(1)[j - 1] == s[j]);
            }
        }
    }
}

/// A scan that saw no `c` before `i`, and `c` at `i` unless `i` is the
/// length, identifies `find_char`.
pub proof fn lemma_find_char_is(s: Seq<char>, c: char, i: int)
    requires
        0 <= i <= s.len(),
        forall|j: int| 0 <= j < i ==> s[j] != c,
        i < s.len() ==> s[i] == c,
    ensures
        find_char(s, c) == i,
    decreases i,
{
    if s.len() > 0 && i > 0 {
        assert(forall|j: int| 0 <= j < i - 1 ==> s.skip(1)[j] == s[j + 1]);
        assert(i - 1 < s.skip(1).len() ==> s.skip(1)[i - 1] == s[i]);
        lemma_find_char_is(s.skip(1), c, i - 1);
    }
}

/// Returns the index of the first occurrence of `c` in `s`, or the character
/// length of `s` when `c` does not occur.
pub fn find_char_at(s: &str, c: char) -> (r: usize)
    ensures
        r as nat == find_char(s@, c),
{
    let n = s.unicode_len();
    let mut i: usize = 0;
    while i < n
        invariant
            n == s@.len(),
            0 <= i <= n,
            forall|j: int| 0 <= j < i ==> s@[j] != c,
        decreases n - i,
    {
        if s.get_char(i) == c {
            proof {
                lemma_find_char_is(s@, c, i as int);
            }
            return i;
        }
        i = i + 1;
    }
    proof {
        lemma_find_char_is(s@, c, n as int);
    }
    n
}

/// Compares two pieces of text character by character.
pub fn str_eq(a: &str, b: &str) -> (r: bool)
    ensures
        r == (a@ == b@),
{
    let na = a.unicode_len();
    let nb = b.unicode_len();
    if na != nb {
        return false;
    }
    let mut i: usize = 0;
    while i < na
        invariant
            na == a@.len(),
            nb == b@.len(),
            na == nb,
            0 <= i <= na,
            forall|j: int| 0 <= j < i ==> a@[j] == b@[j],
        decreases na - i,
    {
        if a.get_char(i) != b.get_char(i) {
            return false;
        }
        i = i + 1;
    }
    proof {
        assert(a@ =~= b@);
    }
    true
}

/// The token before the first delimiter of `s` and the remainder after it;
/// `None` when no delimiter occurs before the end.
pub open spec fn spec_token(s: Seq<char>) -> Option<(Seq<char>, Seq<char>)> {
    let i = find_delim(s);
    if i < s.len() {
        Some((s.take(i as int), s.skip(i as int + 1)))
    } else {
        None
    }
}

/// Splits `request` at its first delimiter into the token before it and the
/// remainder after it; `None` when no delimiter occurs.
pub fn get_next_token(request: &str) -> (r: Option<(&str, &str)>)
    ensures
        match r {
            Some(pair) => spec_token(request@) == Some((pair.0@, pair.1@)),
            None => spec_token(request@) is None,
        },
{
    let n = request.unicode_len();
    let mut i: usize = 0;
    while i < n
        invariant
            n == request@.len(),
            0 <= i <= n,
            forall|j: int| 0 <= j < i ==> !is_delim(request@[j]),
        decreases n - i,
    {
        let c = request.get_char(i);
        if c == ' ' || c == '\r' || c == '\n' {
            proof {
                lemma_find_from_is(request@, |c: char| is_delim(c), i as int);
            }
            let token = request.substring_char(0, i);
            let rest = request.substring_char(i + 1, n);
            return Some((token, rest));
        }
        i = i + 1;
    }
    proof {
        lemma_find_from_is(request@, |c: char| is_delim(c), n as int);
    }
    None
}

} // verus!
