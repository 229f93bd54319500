//! Fluent definition of expectations and of their responses.
use vstd::prelude::*;
use vstd::string::StringExecFns;

use crate::conditional::ConditionalResponse;
use crate::expectation::MockExpectation;
use crate::ids::fresh_id;
use crate::pattern::pattern_of;
use crate::response::{with_json_type, MockResponse};
use crate::server::MockServer;
use crate::text::{lower_of, to_lower, to_upper, upper_of};

verus! {

/// Collects the request side of an expectation.
pub struct ExpectationBuilder {
    expectation: MockExpectation,
}

impl ExpectationBuilder {
    /// The expectation defined so far.
    pub closed spec fn rule(&self) -> MockExpectation {
        self.expectation
    }

    /// Well-formed: the rule's pattern fits its path.
    pub open spec fn wf(&self) -> bool {
        self.rule().wf()
    }

    /// A definition that has not been given anything yet: `GET /`, no
    /// constraint, a default response.
    pub open spec fn is_fresh(&self) -> bool {
        &&& self.rule().method@ == upper_of("GET"@)
        &&& self.rule().path@ == "/"@
        &&& self.rule().query_params@ == Map::<Seq<char>, Seq<char>>::empty()
        &&& self.rule().headers@ == Map::<Seq<char>, Seq<char>>::empty()
        &&& self.rule().body is None
        &&& self.rule().response.is_fresh(200)
    }

    /// A fresh definition.
    pub fn new() -> (r: ExpectationBuilder)
        ensures
            r.wf(),
            r.is_fresh(),
    {
        ExpectationBuilder { expectation: MockExpectation::new("GET", "/") }
    }

    /// Sets the path specification, which may hold `*` wildcards.
    pub fn path(self, path: &str) -> (r: ExpectationBuilder)
        requires
            self.wf(),
        ensures
            r.wf(),
            r.rule().path@ == path@,
            r.rule() == (MockExpectation {
                path: r.rule().path,
                path_pattern: pattern_of(path@),
                ..self.rule()
            }),
    {
        let mut r = self;
        r.expectation.path = String::from_str(path);
        r.expectation.compile_regex_if_needed();
        r
    }

    /// Sets the method, in upper case.
    pub fn method(self, method: &str) -> (r: ExpectationBuilder)
        requires
            self.wf(),
        ensures
            r.wf(),
            r.rule().method@ == upper_of(method@),
            r.rule() == (MockExpectation { method: r.rule().method, ..self.rule() }),
    {
        let mut r = self;
        r.expectation.method = to_upper(method);
        r
    }

    /// Requires a query parameter with this value.
    pub fn query_param(self, key: &str, value: &str) -> (r: ExpectationBuilder)
        requires
            self.wf(),
        ensures
            r.wf(),
            r.rule().query_params@ == self.rule().query_params@.insert(key@, value@),
            r.rule() == (MockExpectation { query_params: r.rule().query_params, ..self.rule() }),
    {
        let mut r = self;
        r.expectation.query_params.insert(String::from_str(key), String::from_str(value));
        r
    }

    /// Requires a header with this value; the name is stored in lower case,
    /// the form in which incoming header names are handed to the engine.
    pub fn header(self, key: &str, value: &str) -> (r: ExpectationBuilder)
        requires
            self.wf(),
        ensures
            r.wf(),
            r.rule().headers@ == self.rule().headers@.insert(lower_of(key@), value@),
            r.rule() == (MockExpectation { headers: r.rule().headers, ..self.rule() }),
    {
        let mut r = self;
        r.expectation.headers.insert(to_lower(key), String::from_str(value));
        r
    }

    /// Requires this exact body.
    pub fn body(self, body: &str) -> (r: ExpectationBuilder)
        requires
            self.wf(),
        ensures
            r.wf(),
            r.rule().body matches Some(b) && b@ == body@,
            r.rule() == (MockExpectation { body: r.rule().body, ..self.rule() }),
    {
        let mut r = self;
        r.expectation.body = Some(String::from_str(body));
        r
    }

    /// Goes on to the response.
    pub fn respond<F: Fn(usize) -> MockResponse>(self) -> (r: ResponseBuilder<F>)
        requires
            self.wf(),
        ensures
            r.wf(),
            r.rule() == self.rule(),
            r.generator() is None,
    {
        ResponseBuilder { expectation_builder: self, conditional: None }
    }
}

/// Collects the response side of an expectation.
pub struct ResponseBuilder<F> {
    expectation_builder: ExpectationBuilder,
    conditional: Option<ConditionalResponse<F>>,
}

impl<F: Fn(usize) -> MockResponse> ResponseBuilder<F> {
    /// The expectation defined so far.
    pub closed spec fn rule(&self) -> MockExpectation {
        self.expectation_builder.expectation
    }

    /// The generator of conditional responses, if one was given.
    pub closed spec fn generator(&self) -> Option<ConditionalResponse<F>> {
        self.conditional
    }

    /// Well-formed: the rule's pattern fits its path, and a generator accepts
    /// every call number and carries the id that the response names.
    pub open spec fn wf(&self) -> bool {
        &&& self.rule().wf()
        &&& self.generator() matches Some(g) ==> {
            &&& self.rule().response.conditional_id is Some
            &&& g.call_count == 0
            &&& forall|n: usize| g.handler.requires((n,))
        }
    }

    /// Sets the status code.
    pub fn status(self, status: u16) -> (r: ResponseBuilder<F>)
        requires
            self.wf(),
        ensures
            r.wf(),
            r.generator() == self.generator(),
            r.rule() == (MockExpectation {
                response: MockResponse { status_code: status, ..self.rule().response },
                ..self.rule()
            }),
    {
        let mut r = self;
        r.expectation_builder.expectation.response.status_code = status;
        r
    }

    /// Adds a response header, name as given.
    pub fn header(self, key: &str, value: &str) -> (r: ResponseBuilder<F>)
        requires
            self.wf(),
        ensures
            r.wf(),
            r.generator() == self.generator(),
            r.rule().response.headers@ == self.rule().response.headers@.insert(key@, value@),
            r.rule() == (MockExpectation {
                response: MockResponse { headers: r.rule().response.headers, ..self.rule().response },
                ..self.rule()
            }),
    {
        let mut r = self;
        r.expectation_builder.expectation.response.headers.insert(
            String::from_str(key),
            String::from_str(value),
        );
        r
    }

    /// Sets an inline JSON body, and `Content-Type: application/json` unless
    /// a `Content-Type` was set.
    pub fn json(self, body: serde_json::Value) -> (r: ResponseBuilder<F>)
        requires
            self.wf(),
        ensures
            r.wf(),
            r.generator() == self.generator(),
            r.rule().response.headers@ == with_json_type(self.rule().response.headers@),
            r.rule() == (MockExpectation {
                response: MockResponse {
                    headers: r.rule().response.headers,
                    body: Some(body),
                    ..self.rule().response
                },
                ..self.rule()
            }),
    {
        let mut r = self;
        r.expectation_builder.expectation.response.body = Some(body);
        r.expectation_builder.expectation.response.ensure_content_type();
        r
    }

    /// Takes the body from a file under the resource directory, and sets
    /// `Content-Type: application/json` unless a `Content-Type` was set.
    pub fn json_file(self, file_path: &str) -> (r: ResponseBuilder<F>)
        requires
            self.wf(),
        ensures
            r.wf(),
            r.generator() == self.generator(),
            r.rule().response.headers@ == with_json_type(self.rule().response.headers@),
            r.rule().response.body_file matches Some(f) && f@ == file_path@,
            r.rule() == (MockExpectation {
                response: MockResponse {
                    headers: r.rule().response.headers,
                    body_file: r.rule().response.body_file,
                    ..self.rule().response
                },
                ..self.rule()
            }),
    {
        let mut r = self;
        r.expectation_builder.expectation.response.body_file = Some(String::from_str(file_path));
        r.expectation_builder.expectation.response.ensure_content_type();
        r
    }

    /// Computes the response of each call with `handler`, from the call's
    /// number; the generator gets a fresh id of the form `cond_<uuid>`.
    pub fn conditional(self, handler: F) -> (r: ResponseBuilder<F>)
        requires
            self.wf(),
            forall|n: usize| handler.requires((n,)),
        ensures
            r.wf(),
            r.generator() matches Some(g) && g.handler == handler && g.call_count == 0,
            r.rule().response.conditional_id matches Some(id) && id@.subrange(0, 5) == "cond_"@,
            r.rule() == (MockExpectation {
                response: MockResponse {
                    conditional_id: r.rule().response.conditional_id,
                    ..self.rule().response
                },
                ..self.rule()
            }),
    {
        let mut id = String::from_str("cond_");
        let suffix = fresh_id();
        let ghost prefix = id@;
        id.append(suffix.as_str());
        proof {
            reveal_strlit("cond_");
            assert(id@.subrange(0, 5) =~= prefix);
        }
        let mut r = self;
        r.expectation_builder.expectation.response.conditional_id = Some(id);
        r.conditional = Some(ConditionalResponse::new(handler));
        r
    }

    /// Registers the expectation with `server`, after all those registered
    /// before, and its generator, if it has one.
    pub fn build(self, server: &mut MockServer<F>)
        requires
            self.wf(),
            old(server).wf(),
        ensures
            final(server).wf(),
            final(server).registered() == old(server).registered().push(self.rule()),
            final(server).generators() == match self.generator() {
                Some(g) => old(server).generators().push(
                    (self.rule().response.conditional_id->Some_0, g),
                ),
                None => old(server).generators(),
            },
            final(server).log() == old(server).log(),
            final(server).max_log_size() == old(server).max_log_size(),
    {
        let ResponseBuilder { expectation_builder, conditional } = self;
        let expectation = expectation_builder.expectation;
        match conditional {
            Some(g) => {
                let id = match &expectation.response.conditional_id {
                    Some(id) => id.clone(),
                    None => String::new(),
                };
                server.add_conditional_response(id, g);
            },
            None => {},
        }
        server.add_expectation(expectation);
    }
}

} // verus!
