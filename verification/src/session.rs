use vstd::prelude::*;

verus! {

/// Orders pipelined responses on one session. Requests on a connection are
/// numbered in arrival order; upstream responses may complete in any order,
/// and are parked here until every earlier response has gone out. `slots`
/// has one entry per request, holding its response once complete; `emitted`
/// is what already went to the client, in order.
pub struct ResponseSequencer {
    pub slots: Vec<Option<u64>>,
    pub emitted: Vec<u64>,
}

impl ResponseSequencer {
    /// Sequencer invariant: no response was emitted ahead of an earlier
    /// request's, and each emitted response is the one completed for its
    /// request.
    pub open spec fn wf(self) -> bool {
        &&& self.emitted@.len() <= self.slots@.len()
        &&& forall|i: int|
            0 <= i < self.emitted@.len() ==> self.slots@[i] == Some(self.emitted@[i])
    }

    pub fn new() -> (s: ResponseSequencer)
        ensures
            s.wf(),
            s.slots@.len() == 0,
            s.emitted@.len() == 0,
    {
        ResponseSequencer { slots: Vec::new(), emitted: Vec::new() }
    }

    /// Registers the next request in arrival order; its index is its place
    /// in the response order.
    pub fn push_request(&mut self) -> (idx: usize)
        requires
            old(self).wf(),
        ensures
            final(self).wf(),
            idx == old(self).slots@.len(),
            final(self).slots@ == old(self).slots@.push(None::<u64>),
            final(self).emitted@ == old(self).emitted@,
    {
        let idx = self.slots.len();
        self.slots.push(None);
        idx
    }

    /// Records that request `idx`'s upstream response is complete, however
    /// early or late it arrived.
    pub fn complete(&mut self, idx: usize, resp: u64)
        requires
            old(self).wf(),
            idx < old(self).slots@.len(),
            old(self).slots@[idx as int] is None,
        ensures
            final(self).wf(),
            final(self).slots@ == old(self).slots@.update(idx as int, Some(resp)),
            final(self).emitted@ == old(self).emitted@,
    {
        self.slots.set(idx, Some(resp));
    }

    /// The next response to send, if its turn has come: responses leave in
    /// request order, so a completed response waits while any earlier one is
    /// still pending.
    pub fn pop_ready(&mut self) -> (r: Option<u64>)
        requires
            old(self).wf(),
        ensures
            final(self).wf(),
            final(self).slots@ == old(self).slots@,
            match r {
                Some(resp) => {
                    &&& old(self).emitted@.len() < old(self).slots@.len()
                    &&& old(self).slots@[old(self).emitted@.len() as int] == Some(resp)
                    &&& final(self).emitted@ == old(self).emitted@.push(resp)
                },
                None => {
                    &&& final(self).emitted@ == old(self).emitted@
                    &&& (old(self).emitted@.len() == old(self).slots@.len() || old(self).slots@[old(
                        self,
                    ).emitted@.len() as int] is None)
                },
            },
    {
        let next = self.emitted.len();
        if next < self.slots.len() {
            match self.slots[next] {
                Some(resp) => {
                    self.emitted.push(resp);
                    Some(resp)
                },
                None => None,
            }
        } else {
            None
        }
    }
}

/// Keep-alive ordering: whatever order upstream responses completed in, the
/// client sees responses exactly in the order its requests arrived — the
/// `k`-th emitted response is the one completed for the `k`-th request.
pub proof fn lemma_responses_in_request_order(s: ResponseSequencer)
    requires
        s.wf(),
    ensures
        forall|k: int| 0 <= k < s.emitted@.len() ==> s.slots@[k] == Some(s.emitted@[k]),
{
}

} // verus!
