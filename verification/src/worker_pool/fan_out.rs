//! Fan-out bookkeeping: one message dispatched to several sink handlers in
//! parallel, with a bounded number of branches in flight.

use vstd::prelude::*;
use std::time::Duration;
use crate::failure::FailureReason;

verus! {

/// Largest fan-out degree.
pub const MAX_FAN_OUT: u8 = 64;

/// Outcome of one fan-out branch.
#[derive(Debug)]
pub enum BranchResult {
    /// The sink handler completed.
    Success,
    /// The sink handler raised an exception.
    Error { reason: FailureReason, exception: String },
    /// The sink handler timed out.
    Timeout { timeout_ms: u64 },
}

impl Clone for BranchResult {
    fn clone(&self) -> (r: Self)
        ensures
            r == *self,
    {
        match self {
            BranchResult::Success => BranchResult::Success,
            BranchResult::Error { reason, exception } => BranchResult::Error {
                reason: reason.clone(),
                exception: exception.clone(),
            },
            BranchResult::Timeout { timeout_ms } => BranchResult::Timeout { timeout_ms: *timeout_ms },
        }
    }
}

/// Outcomes of every branch of one dispatch, as (branch id, outcome).
#[derive(Debug, Default)]
pub struct BranchResults {
    pub results: Vec<(u64, BranchResult)>,
}

/// One sink of a fan-out: its topic, its handler and an optional timeout
/// overriding the handler's.
#[derive(Debug, Clone)]
pub struct SinkConfig<H> {
    pub topic: String,
    pub handler: H,
    pub timeout: Option<Duration>,
}

/// Completion callbacks of fan-out branches, keyed by branch id.
pub struct CallbackRegistry<F: Fn(BranchResult)> {
    callbacks: Vec<(u64, F)>,
    next_branch_id: u64,
}

/// The index of the first registered callback with this branch id.
pub open spec fn callback_index<F>(callbacks: Seq<(u64, F)>, id: u64) -> Option<int> {
    crate::seqs::first_index(callbacks, id_pred(id))
}

pub open spec fn id_pred<F>(id: u64) -> spec_fn((u64, F)) -> bool {
    |e: (u64, F)| e.0 == id
}

impl<F: Fn(BranchResult)> CallbackRegistry<F> {
    #[verifier::type_invariant]
    spec fn inv(&self) -> bool {
        forall|i: int, r: BranchResult|
            0 <= i < self.callbacks@.len() ==> #[trigger] call_requires(self.callbacks@[i].1, (r,))
    }

    /// The registered (branch id, callback) pairs, oldest first.
    pub closed spec fn registered(&self) -> Seq<(u64, F)> {
        self.callbacks@
    }

    /// The id the next registration receives.
    pub closed spec fn spec_next_id(&self) -> u64 {
        self.next_branch_id
    }

    /// An empty registry; branch ids start at 1.
    pub fn new() -> (r: Self)
        ensures
            r.registered().len() == 0,
            r.spec_next_id() == 1,
    {
        CallbackRegistry { callbacks: Vec::new(), next_branch_id: 1 }
    }

    fn next_id(&mut self) -> (r: u64)
        ensures
            r == old(self).spec_next_id(),
            final(self).spec_next_id() == (if r == u64::MAX { 0 } else { r + 1 }),
            final(self).registered() == old(self).registered(),
    {
        proof {
            use_type_invariant(&*self);
        }
        let id = self.next_branch_id;
        self.next_branch_id = id.wrapping_add(1);
        id
    }

    /// Registers a completion callback and returns its branch id.
    pub fn on_sink_complete(&mut self, callback: F) -> (r: u64)
        requires
            forall|res: BranchResult| call_requires(callback, (res,)),
        ensures
            r == old(self).spec_next_id(),
            final(self).spec_next_id() == (if r == u64::MAX { 0 } else { r + 1 }),
            final(self).registered() == old(self).registered().push((r, callback)),
    {
        proof {
            use_type_invariant(&*self);
        }
        let branch_id = self.next_id();
        let mut callbacks: Vec<(u64, F)> = Vec::new();
        std::mem::swap(&mut callbacks, &mut self.callbacks);
        callbacks.push((branch_id, callback));
        self.callbacks = callbacks;
        branch_id
    }

    /// Invokes and removes the callback registered under `branch_id`, if any.
    pub fn emit(&mut self, branch_id: u64, result: BranchResult)
        ensures
            final(self).spec_next_id() == old(self).spec_next_id(),
            match callback_index(old(self).registered(), branch_id) {
                Some(i) => final(self).registered() == old(self).registered().remove(i)
                    && call_ensures(old(self).registered()[i].1, (result,), ()),
                None => final(self).registered() == old(self).registered(),
            },
    {
        proof {
            use_type_invariant(&*self);
        }
        match self.find(branch_id) {
            Some(i) => {
                let ghost old_cbs = self.callbacks@;
                let mut callbacks: Vec<(u64, F)> = Vec::new();
                std::mem::swap(&mut callbacks, &mut self.callbacks);
                let (_, callback) = callbacks.remove(i);
                proof {
                    assert forall|j: int, r: BranchResult| 0 <= j < callbacks@.len() implies #[trigger] call_requires(
                        callbacks@[j].1,
                        (r,),
                    ) by {
                        let j0 = if j < i { j } else { j + 1 };
                        assert(callbacks@[j] == old_cbs[j0]);
                    }
                    assert(call_requires(callback, (result,)));
                }
                self.callbacks = callbacks;
                callback(result);
            },
            None => {},
        }
    }

    fn find(&self, branch_id: u64) -> (r: Option<usize>)
        ensures
            match r {
                Some(i) => callback_index(self.registered(), branch_id) == Some(i as int) && i < self.registered().len(),
                None => callback_index(self.registered(), branch_id) is None,
            },
    {
        let ghost pred = id_pred::<F>(branch_id);
        let mut i: usize = 0;
        while i < self.callbacks.len()
            invariant
                i <= self.callbacks@.len(),
                pred == id_pred::<F>(branch_id),
                forall|j: int| 0 <= j < i ==> !pred(#[trigger] self.callbacks@[j]),
            decreases self.callbacks.len() - i,
        {
            if self.callbacks[i].0 == branch_id {
                proof {
                    assert(pred(self.callbacks@[i as int]));
                    crate::seqs::lemma_first_index_at(self.callbacks@, pred, i as int);
                }
                return Some(i);
            }
            i += 1;
        }
        proof {
            crate::seqs::lemma_first_index_none(self.callbacks@, pred);
        }
        None
    }
}

/// The branch id a registry hands out `k` registrations after it would
/// hand out `start` (ids wrap around past `u64::MAX`).
pub open spec fn nth_branch_id(start: u64, k: nat) -> u64 {
    ((start + k) % 0x1_0000_0000_0000_0000) as u64
}

/// Branch ids are unique: a registration moves the next id from the
/// `k`-th to the `k + 1`-th (as `on_sink_complete` does), and the ids handed
/// out by any fewer than 2^64 successive registrations are pairwise distinct.
pub proof fn law_branch_ids_distinct(start: u64, j: nat, k: nat)
    requires
        j < k < 0x1_0000_0000_0000_0000,
    ensures
        (if nth_branch_id(start, j) == u64::MAX { 0 } else { nth_branch_id(start, j) + 1 })
            == nth_branch_id(start, j + 1),
        nth_branch_id(start, j) != nth_branch_id(start, k),
{
}

/// Tracks the branches of one fan-out dispatch: its sinks, the branches in
/// flight (at most `max_fan_out`), and the results as branches complete.
pub struct FanOutTracker<H, F: Fn(BranchResult)> {
    max_fan_out: u8,
    sinks: Vec<SinkConfig<H>>,
    inflight: u8,
    callback_registry: CallbackRegistry<F>,
    total: u8,
    completed: u8,
    results: Vec<(u64, BranchResult)>,
    branch_topics: Vec<(u64, String)>,
}

impl<H, F: Fn(BranchResult)> FanOutTracker<H, F> {
    pub closed spec fn spec_max_fan_out(&self) -> u8 {
        self.max_fan_out
    }

    pub closed spec fn spec_inflight(&self) -> u8 {
        self.inflight
    }

    pub closed spec fn spec_sinks(&self) -> Seq<SinkConfig<H>> {
        self.sinks@
    }

    pub closed spec fn spec_total(&self) -> u8 {
        self.total
    }

    pub closed spec fn spec_completed(&self) -> u8 {
        self.completed
    }

    pub closed spec fn spec_results(&self) -> Seq<(u64, BranchResult)> {
        self.results@
    }

    pub closed spec fn spec_registry(&self) -> CallbackRegistry<F> {
        self.callback_registry
    }

    /// Each branch registered for a sink, with that sink's topic, in order of
    /// registration.
    pub closed spec fn spec_branch_topics(&self) -> Seq<(u64, String)> {
        self.branch_topics@
    }

    /// A tracker whose fan-out degree is `max_fan_out` capped at 64.
    pub fn new(max_fan_out: u8) -> (r: Self)
        ensures
            r.spec_max_fan_out() == if max_fan_out < MAX_FAN_OUT {
                max_fan_out
            } else {
                MAX_FAN_OUT
            },
            r.spec_inflight() == 0,
            r.spec_sinks().len() == 0,
            r.spec_total() == 0,
            r.spec_completed() == 0,
            r.spec_results().len() == 0,
            r.spec_branch_topics().len() == 0,
    {
        let max = if max_fan_out < MAX_FAN_OUT {
            max_fan_out
        } else {
            MAX_FAN_OUT
        };
        FanOutTracker {
            max_fan_out: max,
            sinks: Vec::new(),
            inflight: 0,
            callback_registry: CallbackRegistry::new(),
            total: 0,
            completed: 0,
            results: Vec::new(),
            branch_topics: Vec::new(),
        }
    }

    /// Adds a sink.
    pub fn register_sink(&mut self, topic: String, handler: H, timeout: Option<Duration>)
        ensures
            final(self).spec_sinks() == old(self).spec_sinks().push(
                SinkConfig { topic, handler, timeout },
            ),
            final(self).spec_inflight() == old(self).spec_inflight(),
            final(self).spec_max_fan_out() == old(self).spec_max_fan_out(),
    {
        self.sinks.push(SinkConfig { topic, handler, timeout });
    }

    pub fn sink_count(&self) -> (r: usize)
        ensures
            r == self.spec_sinks().len(),
    {
        self.sinks.len()
    }

    pub fn max_fan_out(&self) -> (r: u8)
        ensures
            r == self.spec_max_fan_out(),
    {
        self.max_fan_out
    }

    /// Whether every slot is taken.
    pub fn is_exhausted(&self) -> (r: bool)
        ensures
            r == (self.spec_inflight() >= self.spec_max_fan_out()),
    {
        self.inflight >= self.max_fan_out
    }

    /// Takes a slot if one is free; false means the caller should back off.
    pub fn try_acquire_slot(&mut self) -> (r: bool)
        ensures
            r == (old(self).spec_inflight() < old(self).spec_max_fan_out()),
            final(self).spec_inflight() == if r {
                (old(self).spec_inflight() + 1) as u8
            } else {
                old(self).spec_inflight()
            },
            final(self).spec_max_fan_out() == old(self).spec_max_fan_out(),
            final(self).spec_sinks() == old(self).spec_sinks(),
    {
        if self.inflight >= self.max_fan_out {
            return false;
        }
        self.inflight = self.inflight + 1;
        true
    }

    /// Gives back a slot when a branch completes (wrapping below zero, as an
    /// atomic decrement does).
    pub fn release_slot(&mut self)
        ensures
            final(self).spec_inflight() == (if old(self).spec_inflight() == 0 {
                u8::MAX
            } else {
                (old(self).spec_inflight() - 1) as u8
            }),
            final(self).spec_max_fan_out() == old(self).spec_max_fan_out(),
            final(self).spec_sinks() == old(self).spec_sinks(),
    {
        self.inflight = self.inflight.wrapping_sub(1);
    }

    pub fn inflight_count(&self) -> (r: u8)
        ensures
            r == self.spec_inflight(),
    {
        self.inflight
    }

    /// Registers a completion callback for a branch and returns its id.
    pub fn on_sink_complete(&mut self, callback: F) -> (r: u64)
        requires
            forall|res: BranchResult| call_requires(callback, (res,)),
        ensures
            r == old(self).spec_registry().spec_next_id(),
            final(self).spec_registry().registered() == old(self).spec_registry().registered().push(
                (r, callback),
            ),
    {
        self.callback_registry.on_sink_complete(callback)
    }

    /// Invokes and removes a branch's completion callback.
    pub fn emit_completion(&mut self, branch_id: u64, result: BranchResult)
        ensures
            final(self).spec_registry().spec_next_id() == old(self).spec_registry().spec_next_id(),
            match callback_index(old(self).spec_registry().registered(), branch_id) {
                Some(i) => final(self).spec_registry().registered() == old(
                    self,
                ).spec_registry().registered().remove(i) && call_ensures(
                    old(self).spec_registry().registered()[i].1,
                    (result,),
                    (),
                ),
                None => final(self).spec_registry().registered() == old(
                    self,
                ).spec_registry().registered(),
            },
            final(self).spec_results() == old(self).spec_results(),
            final(self).spec_inflight() == old(self).spec_inflight(),
            final(self).spec_total() == old(self).spec_total(),
            final(self).spec_completed() == old(self).spec_completed(),
    {
        self.callback_registry.emit(branch_id, result);
    }

    /// Registers a new branch and returns its id (the count of branches
    /// registered before it, wrapping at 256).
    pub fn register_branch(&mut self) -> (r: u64)
        ensures
            r == old(self).spec_total(),
            final(self).spec_total() == (if old(self).spec_total() == u8::MAX {
                0
            } else {
                (old(self).spec_total() + 1) as u8
            }),
            final(self).spec_completed() == old(self).spec_completed(),
            final(self).spec_results() == old(self).spec_results(),
            final(self).spec_branch_topics() == old(self).spec_branch_topics(),
    {
        let id = self.total;
        self.total = self.total.wrapping_add(1);
        id as u64
    }

    /// Registers a new branch that runs the sink of `sink_topic`, and returns
    /// its id; the id is bound to the topic, so that the branch's outcome can
    /// be traced back to its sink.
    pub fn register_sink_branch(&mut self, sink_topic: String) -> (r: u64)
        ensures
            r == old(self).spec_total(),
            final(self).spec_total() == (if old(self).spec_total() == u8::MAX {
                0
            } else {
                (old(self).spec_total() + 1) as u8
            }),
            final(self).spec_completed() == old(self).spec_completed(),
            final(self).spec_results() == old(self).spec_results(),
            final(self).spec_branch_topics() == old(self).spec_branch_topics().push((r, sink_topic)),
    {
        let id = self.register_branch();
        self.branch_topics.push((id, sink_topic));
        id
    }

    /// The branches registered for sinks, each with its sink's topic.
    pub fn branch_topics(&self) -> (r: &[(u64, String)])
        ensures
            r@ == self.spec_branch_topics(),
    {
        self.branch_topics.as_slice()
    }

    /// Records a branch's outcome; answers whether every registered branch
    /// has now completed.
    pub fn record_branch_result(&mut self, branch_id: u64, result: BranchResult) -> (r: bool)
        ensures
            final(self).spec_results() == old(self).spec_results().push((branch_id, result)),
            final(self).spec_completed() == (if old(self).spec_completed() == u8::MAX {
                0
            } else {
                (old(self).spec_completed() + 1) as u8
            }),
            final(self).spec_total() == old(self).spec_total(),
            final(self).spec_branch_topics() == old(self).spec_branch_topics(),
            r == (old(self).spec_completed() + 1 >= old(self).spec_total()),
    {
        self.results.push((branch_id, result));
        let prev = self.completed;
        self.completed = prev.wrapping_add(1);
        (prev as u16) + 1 >= self.total as u16
    }

    /// Whether the dispatch is complete: at least one branch, and every
    /// registered branch recorded.
    pub fn is_complete(&self) -> (r: bool)
        ensures
            r == (self.spec_completed() >= self.spec_total() && self.spec_completed() > 0),
    {
        self.completed >= self.total && self.completed > 0
    }

    /// The recorded outcomes so far.
    pub fn results(&self) -> (r: BranchResults)
        ensures
            r.results@ == self.spec_results(),
    {
        let mut out: Vec<(u64, BranchResult)> = Vec::new();
        let mut i: usize = 0;
        while i < self.results.len()
            invariant
                i <= self.results@.len(),
                out@ == self.results@.subrange(0, i as int),
            decreases self.results.len() - i,
        {
            let (id, res) = &self.results[i];
            out.push((*id, res.clone()));
            proof {
                assert(out@ =~= self.results@.subrange(0, i + 1));
            }
            i += 1;
        }
        proof {
            assert(self.results@.subrange(0, i as int) =~= self.results@);
        }
        BranchResults { results: out }
    }

    /// The registered sinks.
    pub fn sinks(&self) -> (r: &[SinkConfig<H>])
        ensures
            r@ == self.spec_sinks(),
    {
        self.sinks.as_slice()
    }
}

} // verus!
