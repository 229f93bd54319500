//! Expectations: the rules that requests are matched against.
use vstd::prelude::*;
use vstd::string::StringExecFns;

use crate::ids::fresh_id;
use crate::params::{map_of, StringMap};
use crate::pattern::{compile, pattern_of, PathPattern};
use crate::response::MockResponse;
use crate::text::{lower_of, to_lower, to_upper, upper_of};

verus! {

/// A registered rule: the method, the path specification (which may hold `*`
/// wildcards), the query parameters and headers that must be present, the body
/// that must be sent, and the response given when all of them hold.
pub struct MockExpectation {
    pub id: String,
    pub method: String,
    pub path: String,
    /// `path`, compiled.
    pub path_pattern: PathPattern,
    pub query_params: StringMap,
    /// Names are compared as stored; the builders store them in lower case.
    pub headers: StringMap,
    pub body: Option<String>,
    pub response: MockResponse,
}

impl MockExpectation {
    /// Well-formed: the pattern is the one `path` compiles to.
    pub open spec fn wf(&self) -> bool {
        self.path_pattern == pattern_of(self.path@)
    }

    /// A rule for `method`, in upper case, and `path`, with no other
    /// constraint and a default response.
    pub fn new(method: &str, path: &str) -> (r: MockExpectation)
        ensures
            r.wf(),
            r.method@ == upper_of(method@),
            r.path@ == path@,
            r.query_params@ == Map::<Seq<char>, Seq<char>>::empty(),
            r.headers@ == Map::<Seq<char>, Seq<char>>::empty(),
            r.body is None,
            r.response.is_fresh(200),
    {
        let mut exp = MockExpectation {
            id: fresh_id(),
            method: to_upper(method),
            path: String::from_str(path),
            path_pattern: PathPattern::Invalid,
            query_params: StringMap::new(),
            headers: StringMap::new(),
            body: None,
            response: MockResponse::default(),
        };
        exp.compile_regex_if_needed();
        exp
    }

    /// Compiles `path` into `path_pattern`.
    pub fn compile_regex_if_needed(&mut self)
        ensures
            final(self).path_pattern == pattern_of(old(self).path@),
            *final(self) == (MockExpectation { path_pattern: final(self).path_pattern, ..*old(self) }),
    {
        self.path_pattern = compile(self.path.as_str());
    }

    /// The rule that a creation request describes, with a fresh id, the
    /// method in upper case and the header names in lower case.
    pub fn from_request(req: CreateExpectationRequest) -> (r: MockExpectation)
        ensures
            r.wf(),
            r.method@ == upper_of(req.method@),
            r.path == req.path,
            r.query_params == req.query_params,
            r.headers@ == map_of(lowered(req.headers.pairs())),
            r.body == req.body,
            r.response == req.response,
    {
        let path_pattern = compile(req.path.as_str());
        MockExpectation {
            id: fresh_id(),
            method: to_upper(req.method.as_str()),
            path: req.path,
            path_pattern,
            query_params: req.query_params,
            headers: lower_case_keys(&req.headers),
            body: req.body,
            response: req.response,
        }
    }
}

/// The pairs of `s` with each key in lower case.
pub open spec fn lowered(s: Seq<(Seq<char>, Seq<char>)>) -> Seq<(Seq<char>, Seq<char>)> {
    s.map_values(|p: (Seq<char>, Seq<char>)| (lower_of(p.0), p.1))
}

/// The map `m` with its keys in lower case; where two keys fall together,
/// the later entry wins.
pub fn lower_case_keys(m: &StringMap) -> (r: StringMap)
    ensures
        r@ == map_of(lowered(m.pairs())),
{
    let mut r = StringMap::new();
    let n = m.len();
    let mut i: usize = 0;
    assert(lowered(m.pairs()).subrange(0, 0) =~= Seq::<(Seq<char>, Seq<char>)>::empty());
    while i < n
        invariant
            n == m.pairs().len(),
            i <= n,
            r@ == map_of(lowered(m.pairs()).subrange(0, i as int)),
        decreases n - i,
    {
        let (k, v) = m.entry(i);
        r.insert(to_lower(k.as_str()), v.clone());
        assert(lowered(m.pairs()).subrange(0, i as int + 1).drop_last() =~= lowered(m.pairs()).subrange(0, i as int));
        i = i + 1;
    }
    assert(lowered(m.pairs()).subrange(0, n as int) =~= lowered(m.pairs()));
    r
}

/// A request to create an expectation, as the administrative interface receives it.
pub struct CreateExpectationRequest {
    pub method: String,
    pub path: String,
    pub query_params: StringMap,
    pub headers: StringMap,
    pub body: Option<String>,
    pub response: MockResponse,
}

} // verus!
