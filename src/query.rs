//! Query strings: `key=value` pairs separated by `&`, taken as they stand
//! (no percent-decoding).
use vstd::prelude::*;
use vstd::string::StrSliceExecFns;
use vstd::string::StringExecFns;

use crate::params::StringMap;

verus! {

/// The position of the first `c` in `s`, or the length of `s` when there is none.
pub open spec fn index_of(s: Seq<char>, c: char) -> nat
    decreases s.len(),
{
    if s.len() == 0 {
        0
    } else if s[0] == c {
        0
    } else {
        1 + index_of(s.drop_first(), c)
    }
}

/// `m` with the pair that `seg` holds: the text before its first `=` is the
/// key and the text after it the value. A segment without `=` adds nothing.
pub open spec fn add_pair(m: Map<Seq<char>, Seq<char>>, seg: Seq<char>) -> Map<
    Seq<char>,
    Seq<char>,
> {
    let e = index_of(seg, '=') as int;
    if e < seg.len() {
        m.insert(seg.subrange(0, e), seg.subrange(e + 1, seg.len() as int))
    } else {
        m
    }
}

/// `m` with the pairs of the `&`-separated segments of `q` added from left to
/// right; a later pair for a key wins.
pub open spec fn parse_pairs(q: Seq<char>, m: Map<Seq<char>, Seq<char>>) -> Map<
    Seq<char>,
    Seq<char>,
>
    decreases q.len(),
{
    let e = index_of(q, '&') as int;
    let m2 = add_pair(m, q.subrange(0, e));
    if e >= q.len() {
        m2
    } else {
        parse_pairs(q.subrange(e + 1, q.len() as int), m2)
    }
}

/// The parameters of a query string; none when there is no query.
pub open spec fn query_params_of(query: Option<Seq<char>>) -> Map<Seq<char>, Seq<char>> {
    match query {
        Some(q) => parse_pairs(q, Map::empty()),
        None => Map::empty(),
    }
}

proof fn lemma_index_of_bound(s: Seq<char>, c: char)
    ensures
        index_of(s, c) <= s.len(),
        index_of(s, c) < s.len() ==> s[index_of(s, c) as int] == c,
    decreases s.len(),
{
    if s.len() > 0 && s[0] != c {
        lemma_index_of_bound(s.drop_first(), c);
    }
}

/// The first position at or after `from` and before `to` where `s` holds `c`,
/// or `to` when there is none.
fn find_char(s: &str, from: usize, to: usize, c: char) -> (r: usize)
    requires
        from <= to <= s@.len(),
    ensures
        from <= r <= to,
        r == from + index_of(s@.subrange(from as int, to as int), c),
{
    let mut i: usize = from;
    while i < to && s.get_char(i) != c
        invariant
            from <= i <= to,
            to <= s@.len(),
            index_of(s@.subrange(from as int, to as int), c) == (i - from) + index_of(
                s@.subrange(i as int, to as int),
                c,
            ),
        decreases to - i,
    {
        assert(s@.subrange(i as int, to as int).drop_first() =~= s@.subrange(
            i as int + 1,
            to as int,
        ));
        i = i + 1;
    }
    i
}

/// Splits a query string into its parameters. Each `&`-separated segment with
/// a `=` gives a pair, key before the first `=`, value after it; segments
/// without `=` are skipped, and a later pair for a key wins.
pub fn extract_query_params(query: Option<&str>) -> (r: StringMap)
    ensures
        r@ == query_params_of(
            match query {
                Some(q) => Some(q@),
                None => None,
            },
        ),
{
    match query {
        Some(q) => parse_query(q),
        None => StringMap::new(),
    }
}

/// The parameters of the query string `q`.
fn parse_query(q: &str) -> (r: StringMap)
    ensures
        r@ == parse_pairs(q@, Map::empty()),
{
    let mut m = StringMap::new();
    let n = q.unicode_len();
    let ghost s = q@;
    let mut from: usize = 0;
    assert(s.subrange(0, n as int) =~= s);
    loop
        invariant
            s == q@,
            n == s.len(),
            from <= n,
            parse_pairs(s, Map::empty()) == parse_pairs(s.subrange(from as int, n as int), m@),
        decreases n - from,
    {
        let ghost rest = s.subrange(from as int, n as int);
        let end = find_char(q, from, n, '&');
        let eq = find_char(q, from, end, '=');
        proof {
            assert(s.subrange(from as int, end as int) =~= rest.subrange(0, end - from));
            lemma_index_of_bound(s.subrange(from as int, end as int), '=');
            let seg = s.subrange(from as int, end as int);
            if eq < end {
                assert(seg.subrange(0, eq - from) =~= s.subrange(from as int, eq as int));
                assert(seg.subrange(eq - from + 1, seg.len() as int) =~= s.subrange(
                    eq as int + 1,
                    end as int,
                ));
            }
        }
        let ghost m_old = m@;
        if eq < end {
            let key = String::from_str(q.substring_char(from, eq));
            let value = String::from_str(q.substring_char(eq + 1, end));
            m.insert(key, value);
        }
        proof {
            let seg = s.subrange(from as int, end as int);
            assert(m@ == add_pair(m_old, seg));
            assert(rest.subrange(0, index_of(rest, '&') as int) == seg);
        }
        if end >= n {
            return m;
        }
        proof {
            assert(rest.subrange(end - from + 1, rest.len() as int) =~= s.subrange(
                end as int + 1,
                n as int,
            ));
        }
        from = end + 1;
    }
}

} // verus!
