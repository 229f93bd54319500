//! Conditional responses: a counter of calls and a function from the call
//! number to the response.
use vstd::prelude::*;

use crate::response::MockResponse;

verus! {

/// A response computed anew for each call from the number of that call; the
/// first call is number 1.
pub struct ConditionalResponse<F> {
    pub handler: F,
    pub call_count: usize,
}

impl<F: Fn(usize) -> MockResponse> ConditionalResponse<F> {
    /// A generator that has not been called yet.
    pub fn new(handler: F) -> (r: ConditionalResponse<F>)
        ensures
            r.handler == handler,
            r.call_count == 0,
    {
        ConditionalResponse { handler, call_count: 0 }
    }

    /// Counts one more call, then computes the response for the new count.
    pub fn generate_response(&mut self) -> (r: MockResponse)
        requires
            old(self).call_count < usize::MAX,
            old(self).handler.requires(((old(self).call_count + 1) as usize,)),
        ensures
            final(self).handler == old(self).handler,
            final(self).call_count == old(self).call_count + 1,
            old(self).handler.ensures((final(self).call_count,), r),
    {
        self.call_count = self.call_count + 1;
        (self.handler)(self.call_count)
    }
}

/// The call numbers handed out along `states`, a run of a generator in which
/// each state follows from the one before by one call of `generate_response`:
/// the number of call `i` is the count after it.
pub open spec fn handed_out<F>(states: Seq<ConditionalResponse<F>>) -> Seq<int> {
    Seq::new((states.len() - 1) as nat, |i: int| states[i + 1].call_count as int)
}

/// Each state of `states` follows from the one before as `generate_response`
/// leaves it: the count goes up by exactly one.
pub open spec fn is_run<F>(states: Seq<ConditionalResponse<F>>) -> bool {
    forall|i: int|
        0 <= i < states.len() - 1 ==> #[trigger] states[i + 1].call_count == states[i].call_count
            + 1
}

/// Calls of a fresh generator, in whatever order the callers came, receive
/// the numbers 1 to N, each exactly once and in order.
pub proof fn lemma_call_numbers<F>(states: Seq<ConditionalResponse<F>>)
    requires
        states.len() >= 1,
        states[0].call_count == 0,
        is_run(states),
    ensures
        handed_out(states).len() == states.len() - 1,
        forall|i: int| 0 <= i < states.len() - 1 ==> #[trigger] handed_out(states)[i] == i + 1,
        handed_out(states).no_duplicates(),
        forall|k: int| 1 <= k < states.len() ==> #[trigger] handed_out(states).contains(k),
{
    let h = handed_out(states);
    assert forall|i: int| 0 <= i < states.len() implies #[trigger] states[i].call_count == i by {
        lemma_count_at(states, i);
    }
    assert forall|i: int| 0 <= i < states.len() - 1 implies #[trigger] h[i] == i + 1 by {
        assert(states[i + 1].call_count == i + 1);
    }
    assert forall|k: int| 1 <= k < states.len() implies #[trigger] h.contains(k) by {
        assert(h[k - 1] == k);
    }
}

proof fn lemma_count_at<F>(states: Seq<ConditionalResponse<F>>, i: int)
    requires
        0 <= i < states.len(),
        states[0].call_count == 0,
        is_run(states),
    ensures
        states[i].call_count == i,
    decreases i,
{
    if i > 0 {
        lemma_count_at(states, i - 1);
        assert(states[(i - 1) + 1].call_count == states[i - 1].call_count + 1);
    }
}

} // verus!
