//! The match engine: the first expectation, in registration order, whose rule
//! a request satisfies.
use vstd::prelude::*;

use crate::expectation::MockExpectation;
use crate::params::{is_submap, StringMap};
use crate::pattern::path_matches;

verus! {

/// A required body is met by an equal body; no requirement is met by any body.
pub open spec fn body_matches(required: Option<String>, body: Option<Seq<char>>) -> bool {
    match required {
        Some(b) => body == Some(b@),
        None => true,
    }
}

/// Whether the request satisfies the rule of `e`: same method, a path that
/// matches its pattern, its query parameters and headers present with equal
/// values, and its body, if it sets one.
pub open spec fn expectation_matches(
    e: MockExpectation,
    method: Seq<char>,
    path: Seq<char>,
    query: Map<Seq<char>, Seq<char>>,
    headers: Map<Seq<char>, Seq<char>>,
    body: Option<Seq<char>>,
) -> bool {
    &&& e.method@ == method
    &&& path_matches(e.path@, path)
    &&& is_submap(e.query_params@, query)
    &&& is_submap(e.headers@, headers)
    &&& body_matches(e.body, body)
}

/// `i` is the first position in `s` whose expectation the request satisfies.
pub open spec fn is_first_match(
    s: Seq<MockExpectation>,
    i: int,
    method: Seq<char>,
    path: Seq<char>,
    query: Map<Seq<char>, Seq<char>>,
    headers: Map<Seq<char>, Seq<char>>,
    body: Option<Seq<char>>,
) -> bool {
    &&& 0 <= i < s.len()
    &&& expectation_matches(s[i], method, path, query, headers, body)
    &&& forall|j: int|
        0 <= j < i ==> !expectation_matches(#[trigger] s[j], method, path, query, headers, body)
}

/// The view of an optional body.
pub open spec fn body_view(body: Option<&String>) -> Option<Seq<char>> {
    match body {
        Some(b) => Some(b@),
        None => None,
    }
}

/// The view of an optional owned body.
pub open spec fn owned_body_view(body: Option<String>) -> Option<Seq<char>> {
    match body {
        Some(b) => Some(b@),
        None => None,
    }
}

/// Whether the request satisfies the rule of `exp`, checked in the order path,
/// query, headers, body.
pub fn matches_expectation(
    exp: &MockExpectation,
    method: &String,
    path: &String,
    query_params: &StringMap,
    headers: &StringMap,
    body: Option<&String>,
) -> (r: bool)
    requires
        exp.wf(),
    ensures
        r == expectation_matches(
            *exp,
            method@,
            path@,
            query_params@,
            headers@,
            body_view(body),
        ),
{
    if exp.method != *method {
        return false;
    }
    if !exp.path_pattern.matches(&exp.path, path) {
        return false;
    }
    if !exp.query_params.is_subset_of(query_params) {
        return false;
    }
    if !exp.headers.is_subset_of(headers) {
        return false;
    }
    match &exp.body {
        Some(b) => match body {
            Some(given) => *b == *given,
            None => false,
        },
        None => true,
    }
}

/// The position of the first expectation, in registration order, that the
/// request satisfies; `None` when there is none.
pub fn find_matching_expectation(
    expectations: &Vec<MockExpectation>,
    method: &String,
    path: &String,
    query_params: &StringMap,
    headers: &StringMap,
    body: Option<&String>,
) -> (r: Option<usize>)
    requires
        forall|i: int| 0 <= i < expectations@.len() ==> (#[trigger] expectations@[i]).wf(),
    ensures
        match r {
            Some(i) => is_first_match(
                expectations@,
                i as int,
                method@,
                path@,
                query_params@,
                headers@,
                body_view(body),
            ),
            None => forall|j: int|
                0 <= j < expectations@.len() ==> !expectation_matches(
                    #[trigger] expectations@[j],
                    method@,
                    path@,
                    query_params@,
                    headers@,
                    body_view(body),
                ),
        },
{
    let mut i: usize = 0;
    while i < expectations.len()
        invariant
            i <= expectations@.len(),
            forall|j: int| 0 <= j < expectations@.len() ==> (#[trigger] expectations@[j]).wf(),
            forall|j: int|
                0 <= j < i ==> !expectation_matches(
                    #[trigger] expectations@[j],
                    method@,
                    path@,
                    query_params@,
                    headers@,
                    body_view(body),
                ),
        decreases expectations@.len() - i,
    {
        if matches_expectation(&expectations[i], method, path, query_params, headers, body) {
            return Some(i);
        }
        i = i + 1;
    }
    None
}

/// When two expectations both match a request, the first match is the one
/// registered first, or one registered before it: never the later of the two.
pub proof fn lemma_registration_order(
    s: Seq<MockExpectation>,
    i: int,
    j: int,
    k: int,
    method: Seq<char>,
    path: Seq<char>,
    query: Map<Seq<char>, Seq<char>>,
    headers: Map<Seq<char>, Seq<char>>,
    body: Option<Seq<char>>,
)
    requires
        0 <= i < j < s.len(),
        expectation_matches(s[i], method, path, query, headers, body),
        expectation_matches(s[j], method, path, query, headers, body),
        is_first_match(s, k, method, path, query, headers, body),
    ensures
        k <= i,
        k != j,
{
}

} // verus!
