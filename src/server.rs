//! The server's state: the expectation registry, the table of conditional
//! generators and the bounded request ledger, with the dispatch of requests.
use vstd::prelude::*;
use vstd::string::StringExecFns;

use crate::builder::ExpectationBuilder;
use crate::conditional::ConditionalResponse;
use crate::expectation::MockExpectation;
use crate::matching::{
    body_view,
    expectation_matches,
    find_matching_expectation,
    is_first_match,
    owned_body_view,
};
use crate::params::StringMap;
use crate::pattern::pattern_of;
use crate::record::RequestRecord;
use crate::verification::{VerifyRequest, VerifyResponse};
use crate::response::{
    create_response_from_mock,
    needs_file,
    resolves,
    with_cached_file,
    ConcreteResponse,
    MockResponse,
    ResourceReadError,
};

verus! {

/// The number of requests that the ledger keeps unless told otherwise.
pub const DEFAULT_MAX_LOG_SIZE: usize = 1000;

/// The most recent `max` records of `log`, in order.
pub open spec fn trimmed<T>(log: Seq<T>, max: nat) -> Seq<T> {
    if log.len() > max {
        log.subrange(log.len() - max, log.len() as int)
    } else {
        log
    }
}

/// The ledger after each record of `records` is appended in turn to `log`.
pub open spec fn appended_all<T>(log: Seq<T>, records: Seq<T>, max: nat) -> Seq<T>
    decreases records.len(),
{
    if records.len() == 0 {
        log
    } else {
        trimmed(appended_all(log, records.drop_last(), max).push(records.last()), max)
    }
}

/// A ledger of capacity `max` that starts within its capacity holds, after any
/// number of appends, exactly the most recent `max` records, in append order.
/// In particular `max + k` appends to an empty ledger leave the last `max` of them.
pub proof fn lemma_ledger_bound<T>(log: Seq<T>, records: Seq<T>, max: nat)
    requires
        log.len() <= max,
    ensures
        appended_all(log, records, max) == trimmed(log + records, max),
        appended_all(log, records, max).len() <= max,
    decreases records.len(),
{
    if records.len() > 0 {
        let r = records.drop_last();
        lemma_ledger_bound(log, r, max);
        let all = log + records;
        assert(log + r == all.drop_last());
        let prev = trimmed(log + r, max);
        if all.len() > max {
            assert(prev.push(records.last()) =~= if (log + r).len() > max {
                all.subrange(all.len() - 1 - max, all.len() as int)
            } else {
                all
            });
            assert(trimmed(prev.push(records.last()), max) =~= all.subrange(
                all.len() - max,
                all.len() as int,
            ));
        } else {
            assert(prev.push(records.last()) =~= all);
        }
    }
}

/// How many records of `log` have this method and path.
pub open spec fn count_matching(log: Seq<RequestRecord>, method: Seq<char>, path: Seq<char>) -> nat
    decreases log.len(),
{
    if log.len() == 0 {
        0
    } else {
        count_matching(log.drop_last(), method, path) + if log.last().method@ == method
            && log.last().path@ == path {
            1nat
        } else {
            0nat
        }
    }
}

/// The expectations of `s` for `method`, in registration order.
pub open spec fn with_method(s: Seq<MockExpectation>, method: Seq<char>) -> Seq<MockExpectation>
    decreases s.len(),
{
    if s.len() == 0 {
        Seq::empty()
    } else if s.last().method@ == method {
        with_method(s.drop_last(), method).push(s.last())
    } else {
        with_method(s.drop_last(), method)
    }
}

/// The position of the first generator in `g` with this id.
pub open spec fn is_first_generator<F>(g: Seq<(String, ConditionalResponse<F>)>, k: int, id: Seq<char>) -> bool {
    &&& 0 <= k < g.len()
    &&& g[k].0@ == id
    &&& forall|j: int| 0 <= j < k ==> (#[trigger] g[j]).0@ != id
}

/// No generator in `g` has this id.
pub open spec fn no_generator<F>(g: Seq<(String, ConditionalResponse<F>)>, id: Seq<char>) -> bool {
    forall|j: int| 0 <= j < g.len() ==> (#[trigger] g[j]).0@ != id
}

/// `rec` records this request.
pub open spec fn records_request(
    rec: RequestRecord,
    method: Seq<char>,
    path: Seq<char>,
    query: Map<Seq<char>, Seq<char>>,
    headers: Map<Seq<char>, Seq<char>>,
    body: Option<Seq<char>>,
) -> bool {
    &&& rec.method@ == method
    &&& rec.path@ == path
    &&& rec.query_params@ == query
    &&& rec.headers@ == headers
    &&& owned_body_view(rec.body) == body
}

/// Each expectation's pattern is compiled from its path.
pub open spec fn all_compiled(s: Seq<MockExpectation>) -> bool {
    forall|i: int| 0 <= i < s.len() ==> (#[trigger] s[i]).wf()
}

/// Each generator accepts every call number.
pub open spec fn all_total<F: Fn(usize) -> MockResponse>(g: Seq<(String, ConditionalResponse<F>)>) -> bool {
    forall|k: int, n: usize| 0 <= k < g.len() ==> #[trigger] g[k].1.handler.requires((n,))
}

/// What the dispatch of a request comes to.
pub enum DispatchOutcome {
    /// The response of the matched expectation.
    Respond(ConcreteResponse),
    /// No expectation matched.
    NotFound,
    /// The matched expectation's body file could not be read.
    ReadFailed(ResourceReadError),
    /// The matched generator has handed out every call number there is.
    CallLimitReached,
}

/// The outcome that a resolution gives.
pub open spec fn outcome_of(r: Result<ConcreteResponse, ResourceReadError>) -> DispatchOutcome {
    match r {
        Ok(c) => DispatchOutcome::Respond(c),
        Err(e) => DispatchOutcome::ReadFailed(e),
    }
}

/// The outcome `r` and the expectations and generators after a dispatch fit
/// the request and the state before it. No match gives `NotFound` and
/// changes nothing. A match whose response names a generator counts one more
/// call of the first generator with that id, resolves what the generator
/// computes for the new call number, and leaves the expectations as they
/// were; a generator that has handed out every number gives
/// `CallLimitReached` and stays as it was. Any other match resolves the
/// expectation's own template, which keeps a body file read on the way.
pub open spec fn dispatches<F: Fn(usize) -> MockResponse, R: Fn(&String) -> Result<String, String>>(
    read: R,
    exps: Seq<MockExpectation>,
    gens: Seq<(String, ConditionalResponse<F>)>,
    exps_after: Seq<MockExpectation>,
    gens_after: Seq<(String, ConditionalResponse<F>)>,
    method: Seq<char>,
    path: Seq<char>,
    query: Map<Seq<char>, Seq<char>>,
    headers: Map<Seq<char>, Seq<char>>,
    body: Option<Seq<char>>,
    r: DispatchOutcome,
) -> bool {
    &&& (forall|j: int|
        0 <= j < exps.len() ==> !expectation_matches(#[trigger] exps[j], method, path, query, headers, body))
        ==> r is NotFound && exps_after == exps && gens_after == gens
    &&& forall|i: int| #[trigger]
        is_first_match(exps, i, method, path, query, headers, body) ==> {
            let e = exps[i];
            if e.response.conditional_id is Some && !no_generator(
                gens,
                e.response.conditional_id->Some_0@,
            ) {
                forall|k: int| #[trigger]
                    is_first_generator(gens, k, e.response.conditional_id->Some_0@) ==> {
                        let g = gens[k].1;
                        &&& exps_after == exps
                        &&& if g.call_count == usize::MAX {
                            r is CallLimitReached && gens_after == gens
                        } else {
                            let n = (g.call_count + 1) as usize;
                            &&& gens_after == gens.update(
                                k,
                                (gens[k].0, ConditionalResponse { handler: g.handler, call_count: n }),
                            )
                            &&& exists|t: MockResponse, t2: MockResponse, res: Result<ConcreteResponse, ResourceReadError>|
                                g.handler.ensures((n,), t) && #[trigger] resolves(read, t, t2, res)
                                    && r == outcome_of(res)
                        }
                    }
            } else {
                &&& gens_after == gens
                &&& exists|t2: MockResponse, res: Result<ConcreteResponse, ResourceReadError>|
                    #[trigger] resolves(read, e.response, t2, res) && r == outcome_of(res)
                        && exps_after == exps.update(i, MockExpectation { response: t2, ..e })
            }
        }
}

/// `after` is `e` once its body file, if it needs one, has been read through
/// `read`: the content is kept when the read succeeds, and nothing changes
/// when it fails.
pub open spec fn preloaded<R: Fn(&String) -> Result<String, String>>(
    read: R,
    e: MockExpectation,
    after: MockExpectation,
) -> bool {
    if needs_file(e.response) {
        exists|out: Result<String, String>|
            #[trigger] read.ensures((&e.response.body_file->Some_0,), out) && match out {
                Ok(c) => after == MockExpectation { response: with_cached_file(e.response, c), ..e },
                Err(_) => after == e,
            }
    } else {
        after == e
    }
}

/// With no expectation registered, as `reset` leaves the server, every
/// dispatch answers `NotFound` and changes no expectation or generator.
pub proof fn lemma_empty_registry_not_found<F: Fn(usize) -> MockResponse, R: Fn(&String) -> Result<String, String>>(
    read: R,
    gens: Seq<(String, ConditionalResponse<F>)>,
    exps_after: Seq<MockExpectation>,
    gens_after: Seq<(String, ConditionalResponse<F>)>,
    method: Seq<char>,
    path: Seq<char>,
    query: Map<Seq<char>, Seq<char>>,
    headers: Map<Seq<char>, Seq<char>>,
    body: Option<Seq<char>>,
    r: DispatchOutcome,
)
    requires
        dispatches(
            read,
            Seq::empty(),
            gens,
            exps_after,
            gens_after,
            method,
            path,
            query,
            headers,
            body,
            r,
        ),
    ensures
        r is NotFound,
        exps_after == Seq::<MockExpectation>::empty(),
        gens_after == gens,
{
}

/// The outcome of a resolution.
fn outcome(res: Result<ConcreteResponse, ResourceReadError>) -> (r: DispatchOutcome)
    ensures
        r == outcome_of(res),
{
    match res {
        Ok(c) => DispatchOutcome::Respond(c),
        Err(e) => DispatchOutcome::ReadFailed(e),
    }
}

/// The engine: expectations in registration order, generators of conditional
/// responses by id, and the ledger of the most recent requests.
pub struct MockServer<F> {
    expectations: Vec<MockExpectation>,
    request_log: Vec<RequestRecord>,
    conditionals: Vec<(String, ConditionalResponse<F>)>,
    resource_dir: String,
    max_request_log_size: usize,
}

impl<F: Fn(usize) -> MockResponse> MockServer<F> {
    /// The registered expectations, in registration order.
    pub closed spec fn registered(&self) -> Seq<MockExpectation> {
        self.expectations@
    }

    /// The recorded requests, oldest first.
    pub closed spec fn log(&self) -> Seq<RequestRecord> {
        self.request_log@
    }

    /// The generators of conditional responses, with their ids.
    pub closed spec fn generators(&self) -> Seq<(String, ConditionalResponse<F>)> {
        self.conditionals@
    }

    /// How many requests the ledger keeps.
    pub closed spec fn max_log_size(&self) -> nat {
        self.max_request_log_size as nat
    }

    /// The directory that body files are read from.
    pub closed spec fn resource_dir_spec(&self) -> Seq<char> {
        self.resource_dir@
    }

    /// Well-formed: each expectation's pattern is compiled from its path, and
    /// each generator accepts every call number.
    pub open spec fn wf(&self) -> bool {
        &&& all_compiled(self.registered())
        &&& all_total(self.generators())
    }

    /// A server with no expectations, an empty ledger of the default size, and
    /// body files under `resource_dir`.
    pub fn new(resource_dir: &str) -> (r: MockServer<F>)
        ensures
            r.wf(),
            r.registered() == Seq::<MockExpectation>::empty(),
            r.log() == Seq::<RequestRecord>::empty(),
            r.generators() == Seq::<(String, ConditionalResponse<F>)>::empty(),
            r.max_log_size() == DEFAULT_MAX_LOG_SIZE,
            r.resource_dir_spec() == resource_dir@,
    {
        MockServer {
            expectations: Vec::new(),
            request_log: Vec::new(),
            conditionals: Vec::new(),
            resource_dir: String::from_str(resource_dir),
            max_request_log_size: DEFAULT_MAX_LOG_SIZE,
        }
    }

    /// Sets how many requests the ledger keeps.
    pub fn with_max_log_size(self, size: usize) -> (r: MockServer<F>)
        ensures
            r.max_log_size() == size,
            r.registered() == self.registered(),
            r.log() == self.log(),
            r.generators() == self.generators(),
            r.resource_dir_spec() == self.resource_dir_spec(),
    {
        let mut r = self;
        r.max_request_log_size = size;
        r
    }

    /// Starts the definition of an expectation.
    pub fn expect(&self) -> (r: ExpectationBuilder)
        ensures
            r.wf(),
            r.is_fresh(),
    {
        ExpectationBuilder::new()
    }

    /// Registers an expectation after all those registered before; its path
    /// is compiled again so that its pattern fits it.
    pub fn add_expectation(&mut self, expectation: MockExpectation)
        requires
            old(self).wf(),
        ensures
            final(self).wf(),
            final(self).registered() == old(self).registered().push(
                MockExpectation { path_pattern: pattern_of(expectation.path@), ..expectation },
            ),
            final(self).log() == old(self).log(),
            final(self).generators() == old(self).generators(),
            final(self).max_log_size() == old(self).max_log_size(),
    {
        let mut expectation = expectation;
        expectation.compile_regex_if_needed();
        let ghost before = self.registered();
        self.expectations.push(expectation);
        assert forall|i: int| 0 <= i < self.registered().len() implies (
        #[trigger] self.registered()[i]).wf() by {
            if i < before.len() {
                assert(self.registered()[i] == before[i]);
            }
        }
    }

    /// Adds a generator of conditional responses under `id`.
    pub fn add_conditional_response(&mut self, id: String, conditional: ConditionalResponse<F>)
        requires
            old(self).wf(),
            forall|n: usize| conditional.handler.requires((n,)),
        ensures
            final(self).wf(),
            final(self).generators() == old(self).generators().push((id, conditional)),
            final(self).registered() == old(self).registered(),
            final(self).log() == old(self).log(),
            final(self).max_log_size() == old(self).max_log_size(),
    {
        let ghost before = self.generators();
        self.conditionals.push((id, conditional));
        assert forall|k: int, n: usize| 0 <= k < self.generators().len() implies
            #[trigger] self.generators()[k].1.handler.requires((n,)) by {
            if k < before.len() {
                assert(self.generators()[k] == before[k]);
            } else {
                assert(self.generators()[k].1 == conditional);
            }
        }
    }

    /// Appends a record to the ledger, dropping the oldest records beyond its size.
    fn append_record(&mut self, record: RequestRecord)
        ensures
            final(self).log() == trimmed(old(self).log().push(record), old(self).max_log_size()),
            final(self).registered() == old(self).registered(),
            final(self).generators() == old(self).generators(),
            final(self).max_log_size() == old(self).max_log_size(),
    {
        self.request_log.push(record);
        if self.request_log.len() > self.max_request_log_size {
            let to_remove = self.request_log.len() - self.max_request_log_size;
            let kept = self.request_log.split_off(to_remove);
            self.request_log = kept;
        }
    }

    /// Records a request in the ledger, stamped with the current time.
    pub fn record_request(
        &mut self,
        method: String,
        path: String,
        query_params: &StringMap,
        headers: &StringMap,
        body: Option<&String>,
    )
        ensures
            exists|rec: RequestRecord|
                records_request(rec, method@, path@, query_params@, headers@, body_view(body))
                    && final(self).log() == trimmed(
                    old(self).log().push(rec),
                    old(self).max_log_size(),
                ),
            final(self).registered() == old(self).registered(),
            final(self).generators() == old(self).generators(),
            final(self).max_log_size() == old(self).max_log_size(),
    {
        let owned = match body {
            Some(b) => Some(b.clone()),
            None => None,
        };
        let ghost m = method@;
        let ghost p = path@;
        let record = RequestRecord::new(method, path, query_params.copy(), headers.copy(), owned);
        assert(records_request(record, m, p, query_params@, headers@, body_view(body)));
        self.append_record(record);
    }

    /// Empties the ledger; expectations stay.
    pub fn clear_request_log(&mut self)
        ensures
            final(self).log() == Seq::<RequestRecord>::empty(),
            final(self).registered() == old(self).registered(),
            final(self).generators() == old(self).generators(),
            final(self).max_log_size() == old(self).max_log_size(),
    {
        self.request_log.clear();
    }

    /// Removes every expectation and generator, and empties the ledger.
    pub fn reset(&mut self)
        ensures
            final(self).wf(),
            final(self).registered() == Seq::<MockExpectation>::empty(),
            final(self).log() == Seq::<RequestRecord>::empty(),
            final(self).generators() == Seq::<(String, ConditionalResponse<F>)>::empty(),
            final(self).max_log_size() == old(self).max_log_size(),
    {
        self.expectations.clear();
        self.conditionals.clear();
        self.request_log.clear();
    }

    /// The registered expectations, in registration order.
    pub fn get_expectations(&self) -> (r: &Vec<MockExpectation>)
        ensures
            r@ == self.registered(),
    {
        &self.expectations
    }

    /// The expectations registered for `method`, in registration order.
    pub fn get_expectations_by_method(&self, method: &str) -> (r: Vec<&MockExpectation>)
        ensures
            r@.len() == with_method(self.registered(), method@).len(),
            forall|i: int|
                0 <= i < r@.len() ==> *r@[i] == #[trigger] with_method(self.registered(), method@)[i],
    {
        let m = String::from_str(method);
        let mut r: Vec<&MockExpectation> = Vec::new();
        let mut i: usize = 0;
        while i < self.expectations.len()
            invariant
                m@ == method@,
                i <= self.expectations@.len(),
                r@.len() == with_method(self.expectations@.subrange(0, i as int), method@).len(),
                forall|j: int|
                    0 <= j < r@.len() ==> *r@[j] == #[trigger] with_method(
                        self.expectations@.subrange(0, i as int),
                        method@,
                    )[j],
            decreases self.expectations@.len() - i,
        {
            assert(self.expectations@.subrange(0, i as int + 1).drop_last() =~= self.expectations@.subrange(0, i as int));
            if self.expectations[i].method == m {
                r.push(&self.expectations[i]);
            }
            i = i + 1;
        }
        assert(self.expectations@.subrange(0, i as int) =~= self.expectations@);
        r
    }

    /// The recorded requests, oldest first.
    pub fn get_request_log(&self) -> (r: &Vec<RequestRecord>)
        ensures
            r@ == self.log(),
    {
        &self.request_log
    }

    /// How many recorded requests have this method and path; 0 for a pair never seen.
    pub fn count_calls(&self, method: &str, path: &str) -> (r: usize)
        ensures
            r == count_matching(self.log(), method@, path@),
    {
        let m = String::from_str(method);
        let p = String::from_str(path);
        let mut count: usize = 0;
        let mut i: usize = 0;
        while i < self.request_log.len()
            invariant
                m@ == method@,
                p@ == path@,
                i <= self.request_log@.len(),
                count == count_matching(self.request_log@.subrange(0, i as int), method@, path@),
                count <= i,
            decreases self.request_log@.len() - i,
        {
            assert(self.request_log@.subrange(0, i as int + 1).drop_last() =~= self.request_log@.subrange(0, i as int));
            if self.request_log[i].method == m && self.request_log[i].path == p {
                count = count + 1;
            }
            i = i + 1;
        }
        assert(self.request_log@.subrange(0, i as int) =~= self.request_log@);
        count
    }

    /// The position of the first generator with this id.
    fn find_generator(&self, id: &String) -> (r: Option<usize>)
        ensures
            match r {
                Some(k) => is_first_generator(self.generators(), k as int, id@),
                None => no_generator(self.generators(), id@),
            },
    {
        let mut k: usize = 0;
        while k < self.conditionals.len()
            invariant
                k <= self.conditionals@.len(),
                forall|j: int| 0 <= j < k ==> (#[trigger] self.conditionals@[j]).0@ != id@,
            decreases self.conditionals@.len() - k,
        {
            if self.conditionals[k].0 == *id {
                return Some(k);
            }
            k = k + 1;
        }
        None
    }

    /// Dispatches a request: records it in the ledger, finds the first
    /// expectation that it satisfies, and resolves that expectation's
    /// response, through its generator when it names one. Body files are read
    /// through `read`.
    pub fn handle_request<R: Fn(&String) -> Result<String, String>>(
        &mut self,
        method: String,
        path: String,
        query_params: StringMap,
        headers: StringMap,
        body: Option<String>,
        read: &R,
    ) -> (r: DispatchOutcome)
        requires
            old(self).wf(),
            forall|name: &String| read.requires((name,)),
        ensures
            final(self).wf(),
            final(self).max_log_size() == old(self).max_log_size(),
            exists|rec: RequestRecord|
                records_request(rec, method@, path@, query_params@, headers@, owned_body_view(body))
                    && final(self).log() == trimmed(
                    old(self).log().push(rec),
                    old(self).max_log_size(),
                ),
            dispatches(
                *read,
                old(self).registered(),
                old(self).generators(),
                final(self).registered(),
                final(self).generators(),
                method@,
                path@,
                query_params@,
                headers@,
                owned_body_view(body),
                r,
            ),
    {
        let ghost exps = self.registered();
        let ghost gens = self.generators();
        let ghost m = method@;
        let ghost p = path@;
        let body_ref = body.as_ref();
        assert(body_view(body_ref) == owned_body_view(body));
        self.record_request(method.clone(), path.clone(), &query_params, &headers, body_ref);
        let found = find_matching_expectation(
            &self.expectations,
            &method,
            &path,
            &query_params,
            &headers,
            body_ref,
        );
        let i = match found {
            Some(i) => i,
            None => {
                return DispatchOutcome::NotFound;
            },
        };
        assert(is_first_match(exps, i as int, m, p, query_params@, headers@, owned_body_view(body)));
        let gen_index = match &self.expectations[i].response.conditional_id {
            Some(cid) => self.find_generator(cid),
            None => None,
        };
        match gen_index {
            Some(k) => {
                let (id, mut g) = self.conditionals.remove(k);
                if g.call_count == usize::MAX {
                    self.conditionals.insert(k, (id, g));
                    assert(self.generators() =~= gens);
                    return DispatchOutcome::CallLimitReached;
                }
                let mut t = g.generate_response();
                let ghost t0 = t;
                self.conditionals.insert(k, (id, g));
                proof {
                    let n = g.call_count;
                    assert(self.generators() =~= gens.update(
                        k as int,
                        (gens[k as int].0, ConditionalResponse { handler: g.handler, call_count: n }),
                    ));
                    assert forall|j: int, n: usize| 0 <= j < self.generators().len() implies
                        #[trigger] self.generators()[j].1.handler.requires((n,)) by {
                        assert(self.generators()[j].1.handler == gens[j].1.handler);
                    }
                }
                let res = create_response_from_mock(&mut t, read);
                let r = outcome(res);
                proof {
                    assert(resolves(*read, t0, t, res));
                }
                r
            },
            None => {
                let mut e = self.expectations.remove(i);
                let ghost e0 = e;
                let res = create_response_from_mock(&mut e.response, read);
                let ghost e1 = e;
                self.expectations.insert(i, e);
                proof {
                    assert(e1 == MockExpectation { response: e1.response, ..e0 });
                    assert(self.registered() =~= exps.update(i as int, e1));
                    assert forall|j: int| 0 <= j < self.registered().len() implies (
                    #[trigger] self.registered()[j]).wf() by {
                        if j != i {
                            assert(self.registered()[j] == exps[j]);
                        }
                    }
                    assert(resolves(*read, e0.response, e1.response, res));
                }
                outcome(res)
            },
        }
    }

    /// Reads, through `read`, the body file of every expectation that needs
    /// one and keeps its content; a file that cannot be read is left for the
    /// dispatch to report.
    pub fn preload_file_content<R: Fn(&String) -> Result<String, String>>(&mut self, read: &R)
        requires
            old(self).wf(),
            forall|name: &String| read.requires((name,)),
        ensures
            final(self).wf(),
            final(self).registered().len() == old(self).registered().len(),
            forall|i: int|
                0 <= i < old(self).registered().len() ==> preloaded(
                    *read,
                    old(self).registered()[i],
                    #[trigger] final(self).registered()[i],
                ),
            final(self).log() == old(self).log(),
            final(self).generators() == old(self).generators(),
            final(self).max_log_size() == old(self).max_log_size(),
    {
        let ghost exps = self.registered();
        let mut i: usize = 0;
        while i < self.expectations.len()
            invariant
                self.expectations@.len() == exps.len(),
                i <= exps.len(),
                all_compiled(self.expectations@),
                all_total(self.conditionals@),
                self.generators() == old(self).generators(),
                self.log() == old(self).log(),
                self.max_log_size() == old(self).max_log_size(),
                forall|j: int| 0 <= j < i ==> preloaded(*read, exps[j], #[trigger] self.expectations@[j]),
                forall|j: int| i <= j < exps.len() ==> #[trigger] self.expectations@[j] == exps[j],
                forall|name: &String| read.requires((name,)),
            decreases exps.len() - i,
        {
            let needs = self.expectations[i].response.cached_file_content.is_none()
                && self.expectations[i].response.body_file.is_some();
            if needs {
                let mut e = self.expectations.remove(i);
                let ghost e0 = e;
                let name = match &e.response.body_file {
                    Some(f) => f.clone(),
                    None => String::new(),
                };
                match read(&name) {
                    Ok(content) => {
                        e.response.cache_file_content(content);
                    },
                    Err(_) => {},
                }
                let ghost e1 = e;
                self.expectations.insert(i, e);
                proof {
                    assert(preloaded(*read, e0, e1));
                }
            }
            i = i + 1;
        }
    }

    /// Compares the number of recorded calls of a method and path with the
    /// number expected.
    pub fn verify_calls(&self, request: VerifyRequest) -> (r: VerifyResponse)
        ensures
            r.method == request.method,
            r.path == request.path,
            r.expected == request.times,
            r.actual == count_matching(self.log(), request.method@, request.path@),
            r.success == (request.times == count_matching(self.log(), request.method@, request.path@)),
    {
        let actual = self.count_calls(request.method.as_str(), request.path.as_str());
        VerifyResponse::new(request.method, request.path, request.times, actual)
    }

    /// The directory that body files are read from.
    pub fn resource_dir(&self) -> (r: &String)
        ensures
            r@ == self.resource_dir_spec(),
    {
        &self.resource_dir
    }
}

} // verus!
