//! Concurrency limits backed by tokio semaphores: per handler, created on
//! first use with a default limit, and per fan-out for the sink branches.

use vstd::prelude::*;
use std::sync::Arc;
use tokio::sync::Semaphore;
use crate::text::str_eq;
use crate::worker_pool::fan_out::{SinkConfig, MAX_FAN_OUT};

verus! {

#[verifier::external_type_specification]
#[verifier::external_body]
pub struct ExSemaphore(Semaphore);

/// The most permits a tokio semaphore can hold (`Semaphore::MAX_PERMITS`).
pub const MAX_SEMAPHORE_PERMITS: usize = usize::MAX >> 3;

proof fn lemma_eighth_of_word(m: usize)
    by (bit_vector)
    requires
        m >= 0xffff_ffff,
    ensures
        (m >> 3) >= 64usize,
{
}

proof fn lemma_fan_out_cap_fits()
    ensures
        (MAX_FAN_OUT as usize) <= MAX_SEMAPHORE_PERMITS,
{
    assert(usize::MAX >= 0xffff_ffff);
    lemma_eighth_of_word(usize::MAX);
}

/// `tokio::sync::Semaphore::new`.
///
/// Trusted only in that it returns when `permits` is at most
/// `Semaphore::MAX_PERMITS` (above it the crate panics): the semaphore is
/// opaque here and its permits change as other tasks acquire and release them.
#[verifier::external_body]
fn semaphore_new(permits: usize) -> Arc<Semaphore>
    requires
        permits <= MAX_SEMAPHORE_PERMITS,
{
    Arc::new(Semaphore::new(permits))
}

/// `tokio::sync::Semaphore::available_permits`.
///
/// Trusted only in that it returns: the count changes as other tasks
/// acquire and release permits, so nothing is stated about it.
#[verifier::external_body]
fn semaphore_available(s: &Semaphore) -> usize {
    s.available_permits()
}

/// `tokio::sync::Semaphore::forget_permits`: takes away up to `n` permits
/// for good.
///
/// Trusted: the crate's source returns how many permits it took, the
/// smaller of `n` and the permits then free, so never more than `n`. How many
/// were free depends on other tasks and is not stated.
#[verifier::external_body]
fn semaphore_forget_permits(s: &Semaphore, n: usize) -> (taken: usize)
    ensures
        taken <= n,
{
    s.forget_permits(n)
}

/// `std::sync::Arc::clone`: another handle to the same semaphore.
///
/// Trusted: the standard library documents that the clone points to the
/// same allocation.
#[verifier::external_body]
fn share(s: &Arc<Semaphore>) -> (r: Arc<Semaphore>)
    ensures
        r == *s,
{
    Arc::clone(s)
}

pub open spec fn distinct_handlers(s: Seq<(String, Arc<Semaphore>)>) -> bool {
    forall|i: int, j: int| 0 <= i < j < s.len() ==> (#[trigger] s[i]).0@ != (#[trigger] s[j]).0@
}

/// Per-handler concurrency limits: each handler gets its own semaphore,
/// created with the default limit on first use.
#[derive(Debug)]
pub struct HandlerConcurrency {
    semaphores: Vec<(String, Arc<Semaphore>)>,
    default_limit: usize,
}

impl HandlerConcurrency {
    #[verifier::type_invariant]
    spec fn inv(&self) -> bool {
        distinct_handlers(self.semaphores@) && self.default_limit <= MAX_SEMAPHORE_PERMITS
    }

    /// The handlers that have a semaphore, in order of first use.
    pub closed spec fn handlers(&self) -> Seq<Seq<char>> {
        self.semaphores@.map_values(|e: (String, Arc<Semaphore>)| e.0@)
    }

    /// The handlers' semaphores, in the order of `handlers()`.
    pub closed spec fn handler_semaphores(&self) -> Seq<Arc<Semaphore>> {
        self.semaphores@.map_values(|e: (String, Arc<Semaphore>)| e.1)
    }

    pub closed spec fn spec_default_limit(&self) -> usize {
        self.default_limit
    }

    /// No handler registered yet; new handlers get `default_limit` permits.
    pub fn new(default_limit: usize) -> (r: Self)
        requires
            default_limit <= MAX_SEMAPHORE_PERMITS,
        ensures
            r.handlers().len() == 0,
            r.handler_semaphores().len() == 0,
            r.spec_default_limit() == default_limit,
    {
        let r = HandlerConcurrency { semaphores: Vec::new(), default_limit };
        assert(r.handlers() =~= Seq::<Seq<char>>::empty());
        r
    }

    /// Sets the limit given to handlers registered from now on.
    pub fn with_default_limit(self, limit: usize) -> (r: Self)
        requires
            limit <= MAX_SEMAPHORE_PERMITS,
        ensures
            r.handlers() == self.handlers(),
            r.handler_semaphores() == self.handler_semaphores(),
            r.spec_default_limit() == limit,
    {
        proof {
            use_type_invariant(&self);
        }
        HandlerConcurrency { semaphores: self.semaphores, default_limit: limit }
    }

    fn position(&self, handler_id: &str) -> (r: Option<usize>)
        ensures
            match r {
                Some(i) => i < self.handlers().len() && self.handlers()[i as int] == handler_id@,
                None => !self.handlers().contains(handler_id@),
            },
    {
        let mut i: usize = 0;
        while i < self.semaphores.len()
            invariant
                i <= self.semaphores@.len(),
                forall|j: int| 0 <= j < i ==> (#[trigger] self.semaphores@[j]).0@ != handler_id@,
            decreases self.semaphores.len() - i,
        {
            if str_eq(self.semaphores[i].0.as_str(), handler_id) {
                return Some(i);
            }
            i += 1;
        }
        proof {
            if self.handlers().contains(handler_id@) {
                let j = choose|j: int| 0 <= j < self.handlers().len() && self.handlers()[j] == handler_id@;
                assert(self.semaphores@[j].0@ == handler_id@);
            }
        }
        None
    }

    /// The semaphore of a handler, registering the handler with the default
    /// limit when it has none yet. Acquiring a permit from it is left to the
    /// caller, which awaits it.
    pub fn semaphore_for(&mut self, handler_id: &str) -> (r: Arc<Semaphore>)
        ensures
            old(self).handlers().contains(handler_id@) ==> final(self).handlers() == old(
                self,
            ).handlers(),
            !old(self).handlers().contains(handler_id@) ==> final(self).handlers() == old(
                self,
            ).handlers().push(handler_id@),
            old(self).handlers().contains(handler_id@) ==> final(self).handler_semaphores() == old(
                self,
            ).handler_semaphores() && exists|i: int|
                0 <= i < old(self).handlers().len() && old(self).handlers()[i] == handler_id@ && r == old(
                    self,
                ).handler_semaphores()[i],
            !old(self).handlers().contains(handler_id@) ==> final(self).handler_semaphores() == old(
                self,
            ).handler_semaphores().push(r),
            final(self).spec_default_limit() == old(self).spec_default_limit(),
    {
        proof {
            use_type_invariant(&*self);
        }
        match self.position(handler_id) {
            Some(i) => {
                let r = share(&self.semaphores[i].1);
                assert(r == self.handler_semaphores()[i as int]);
                r
            },
            None => {
                let sem = semaphore_new(self.default_limit);
                let r = share(&sem);
                let ghost old_sems = self.semaphores@;
                let mut sems: Vec<(String, Arc<Semaphore>)> = Vec::new();
                std::mem::swap(&mut sems, &mut self.semaphores);
                sems.push((String::from_str(handler_id), sem));
                proof {
                    assert forall|a: int, b: int| 0 <= a < b < sems@.len() implies (#[trigger] sems@[a]).0@
                        != (#[trigger] sems@[b]).0@ by {
                        if b == old_sems.len() {
                            assert(sems@[a] == old_sems[a]);
                            assert(old_sems.map_values(|e: (String, Arc<Semaphore>)| e.0@)[a] == old_sems[a].0@);
                        } else {
                            assert(sems@[a] == old_sems[a] && sems@[b] == old_sems[b]);
                        }
                    }
                    assert(sems@.map_values(|e: (String, Arc<Semaphore>)| e.0@) =~= old_sems.map_values(
                        |e: (String, Arc<Semaphore>)| e.0@,
                    ).push(handler_id@));
                    assert(sems@.map_values(|e: (String, Arc<Semaphore>)| e.1) =~= old_sems.map_values(
                        |e: (String, Arc<Semaphore>)| e.1,
                    ).push(r));
                }
                self.semaphores = sems;
                r
            },
        }
    }

    /// The permits currently available to a handler; `None` when the handler
    /// has no semaphore yet.
    pub fn available(&self, handler_id: &str) -> (r: Option<usize>)
        ensures
            r is Some <==> self.handlers().contains(handler_id@),
    {
        match self.position(handler_id) {
            Some(i) => Some(semaphore_available(&self.semaphores[i].1)),
            None => None,
        }
    }
}

/// What the consumer is asked to do when a handler cannot take more work.
#[derive(Debug, Clone, PartialEq, Eq)]
pub enum BackpressureAction {
    /// Stop fetching from the partition (`-1`: every partition of the topic).
    PausePartition { topic: String, partition: i32 },
}

/// The outcome of taking a fan-out slot of `topic`, given how many slots were
/// taken: success when one was, otherwise a request to pause the topic.
pub fn slot_outcome(taken: usize, topic: &str) -> (r: Result<(), BackpressureAction>)
    ensures
        taken > 0 ==> r is Ok,
        taken == 0 ==> match r {
            Err(BackpressureAction::PausePartition { topic: t, partition }) => t@ == topic@ && partition == -1,
            Ok(()) => false,
        },
{
    if taken > 0 {
        Ok(())
    } else {
        Err(BackpressureAction::PausePartition { topic: String::from_str(topic), partition: -1 })
    }
}

/// Whether a count of free slots leaves none.
pub fn no_slot_free(available: usize) -> (r: bool)
    ensures
        r == (available == 0),
{
    available == 0
}

/// Bounds the concurrent sink branches of a handler's fan-out.
#[derive(Debug)]
pub struct FanOutSlotManager {
    semaphore: Arc<Semaphore>,
    max_slots: usize,
    topic: String,
}

impl FanOutSlotManager {
    /// A slot manager with `max_fan_out` slots, capped at 64.
    pub fn new(max_fan_out: u8, topic: String) -> (r: Self)
        ensures
            r.spec_max_slots() == if max_fan_out < MAX_FAN_OUT {
                max_fan_out as usize
            } else {
                MAX_FAN_OUT as usize
            },
            r.spec_topic() == topic,
    {
        let max: usize = if max_fan_out < MAX_FAN_OUT {
            max_fan_out as usize
        } else {
            MAX_FAN_OUT as usize
        };
        proof {
            lemma_fan_out_cap_fits();
        }
        FanOutSlotManager { semaphore: semaphore_new(max), max_slots: max, topic }
    }

    pub closed spec fn spec_max_slots(&self) -> usize {
        self.max_slots
    }

    pub closed spec fn spec_semaphore(&self) -> Arc<Semaphore> {
        self.semaphore
    }

    pub closed spec fn spec_topic(&self) -> String {
        self.topic
    }

    /// What taking a slot asks of the semaphore: this manager's own
    /// semaphore, and one permit.
    pub fn slot_request(&self) -> (req: (Arc<Semaphore>, usize))
        ensures
            req.0 == self.spec_semaphore(),
            req.1 == 1,
    {
        (share(&self.semaphore), 1)
    }

    /// Takes a slot without waiting; the slot stays taken. When every slot
    /// is taken, asks to pause the topic. The semaphore is asked for exactly
    /// `slot_request()`, and its answer is read by `slot_outcome`.
    pub fn acquire(&self) -> (r: Result<(), BackpressureAction>)
        ensures
            match r {
                Err(BackpressureAction::PausePartition { topic, partition }) => topic@ == self.spec_topic()@
                    && partition == -1,
                Ok(()) => true,
            },
    {
        let (semaphore, permits) = self.slot_request();
        let taken = semaphore_forget_permits(&semaphore, permits);
        slot_outcome(taken, self.topic.as_str())
    }

    /// The slots currently free.
    pub fn available(&self) -> usize {
        semaphore_available(&self.semaphore)
    }

    /// The number of slots.
    pub fn max_slots(&self) -> (r: usize)
        ensures
            r == self.spec_max_slots(),
    {
        self.max_slots
    }

    /// The topic the slots are for.
    pub fn topic(&self) -> (r: &str)
        ensures
            r@ == self.spec_topic()@,
    {
        self.topic.as_str()
    }

    /// The semaphore the slots are drawn from; acquiring is left to the
    /// caller, which awaits it.
    pub fn semaphore(&self) -> (r: Arc<Semaphore>)
        ensures
            r == self.spec_semaphore(),
    {
        share(&self.semaphore)
    }
}

/// Fan-out configuration attached to a handler.
#[derive(Debug)]
pub struct FanOutConfig<H> {
    /// Sinks dispatched to in parallel.
    pub sinks: Vec<SinkConfig<H>>,
    /// Largest fan-out degree (capped at 64).
    pub max_fan_out: u8,
    /// Bounds the concurrent branches; `None` means unbounded.
    pub slot_manager: Option<Arc<FanOutSlotManager>>,
}

impl<H> FanOutConfig<H> {
    /// The number of sinks.
    pub fn sink_count(&self) -> (r: usize)
        ensures
            r == self.sinks@.len(),
    {
        self.sinks.len()
    }

    /// Whether no fan-out slot is free; never without a slot manager. With
    /// one, the manager's count of free slots is read by `no_slot_free`.
    pub fn is_exhausted(&self) -> (r: bool)
        ensures
            self.slot_manager is None ==> !r,
    {
        match &self.slot_manager {
            Some(s) => no_slot_free(s.available()),
            None => false,
        }
    }
}

} // verus!
