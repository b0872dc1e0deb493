//! The decisions of the single-message worker loop: which handler runs a
//! message, the execution context built from its headers, and the step
//! function the loop follows between receiving, running and settling.

use vstd::prelude::*;
use crate::execution::ExecutionContext;
use crate::message::OwnedMessage;
use crate::observability::tracing::{inject_trace_context, with_trace_context};
use crate::seqs::{first_index, lemma_first_index_at, lemma_first_index_none};
use crate::text::{lossy_text, str_eq, utf8_lossy};
use crate::text_map::TextMap;
use crate::worker_pool::state::WorkerState;

verus! {

pub open spec fn handler_key_pred<H>(topic: Seq<char>) -> spec_fn((String, H)) -> bool {
    |e: (String, H)| e.0@ == topic
}

/// The handler registered for `topic`, or the first registered handler
/// when none is (the message is still processed).
pub open spec fn handler_index<H>(handlers: Seq<(String, H)>, topic: Seq<char>) -> int {
    match first_index(handlers, handler_key_pred::<H>(topic)) {
        Some(i) => i,
        None => 0,
    }
}

/// Looks up the handler for a topic, falling back to the first handler.
pub fn handler_for_topic<'a, H>(handlers: &'a [(String, H)], topic: &str) -> (r: &'a H)
    requires
        handlers@.len() > 0,
    ensures
        *r == handlers@[handler_index(handlers@, topic@)].1,
{
    let mut i: usize = 0;
    while i < handlers.len()
        invariant
            i <= handlers@.len(),
            handlers@.len() > 0,
            forall|j: int| 0 <= j < i ==> !handler_key_pred::<H>(topic@)(#[trigger] handlers@[j]),
        decreases handlers.len() - i,
    {
        if str_eq(handlers[i].0.as_str(), topic) {
            proof {
                lemma_first_index_at(handlers@, handler_key_pred::<H>(topic@), i as int);
            }
            return &handlers[i].1;
        }
        i += 1;
    }
    proof {
        lemma_first_index_none(handlers@, handler_key_pred::<H>(topic@));
    }
    &handlers[0].1
}

/// The headers of a message as text: each header with a value, decoded
/// leniently, a later header replacing an earlier one of the same name.
pub open spec fn header_text_map(headers: Seq<(String, Option<Vec<u8>>)>) -> Map<Seq<char>, Seq<char>>
    decreases headers.len(),
{
    if headers.len() == 0 {
        Map::empty()
    } else {
        let prev = header_text_map(headers.drop_last());
        match headers.last().1 {
            Some(v) => prev.insert(headers.last().0@, lossy_text(v@)),
            None => prev,
        }
    }
}

/// Collects the headers that carry a value, as text.
pub fn header_texts(headers: &[(String, Option<Vec<u8>>)]) -> (r: TextMap)
    ensures
        r@ == header_text_map(headers@),
{
    let mut m = TextMap::new();
    let mut i: usize = 0;
    while i < headers.len()
        invariant
            i <= headers@.len(),
            m@ == header_text_map(headers@.subrange(0, i as int)),
        decreases headers.len() - i,
    {
        proof {
            assert(headers@.subrange(0, i + 1).drop_last() =~= headers@.subrange(0, i as int));
        }
        let (k, v) = &headers[i];
        match v {
            Some(bytes) => {
                let text = utf8_lossy(bytes.as_slice());
                m.insert(k.clone(), text);
            },
            None => {},
        }
        i += 1;
    }
    proof {
        assert(headers@.subrange(0, headers@.len() as int) =~= headers@);
    }
    m
}

/// The trace context carried by a message's headers: what
/// `inject_trace_context` extracts from them.
pub open spec fn message_trace(msg: OwnedMessage) -> Map<Seq<char>, Seq<char>> {
    with_trace_context(header_text_map(msg.headers@), Map::empty())
}

/// An optional string as an optional character sequence.
pub open spec fn opt_text(o: Option<String>) -> Option<Seq<char>> {
    match o {
        Some(s) => Some(s@),
        None => None,
    }
}

/// The value under `key`, if any.
pub open spec fn lookup(m: Map<Seq<char>, Seq<char>>, key: Seq<char>) -> Option<Seq<char>> {
    if m.dom().contains(key) {
        Some(m[key])
    } else {
        None
    }
}

fn get_text(m: &TextMap, key: &str) -> (r: Option<String>)
    ensures
        opt_text(r) == lookup(m@, key@),
{
    match m.get(key) {
        Some(v) => Some(v.clone()),
        None => None,
    }
}

/// The execution context of a message run by a worker: the message's
/// position, the worker, the W3C trace context of its headers, and the
/// fan-in source and group when the worker merges several topics.
pub fn message_context(
    msg: &OwnedMessage,
    worker_id: usize,
    source_topic: String,
    fan_in_id: Option<u64>,
) -> (r: ExecutionContext)
    ensures
        r.topic@ == msg.topic@,
        r.partition == msg.partition,
        r.offset == msg.offset,
        r.worker_id == worker_id,
        opt_text(r.trace_id) == lookup(message_trace(*msg), "trace_id"@),
        opt_text(r.span_id) == lookup(message_trace(*msg), "span_id"@),
        opt_text(r.trace_flags) == lookup(message_trace(*msg), "trace_flags"@),
        r.branch_id is None,
        r.fan_out_id is None,
        r.source_topic == source_topic,
        r.fan_in_id == fan_in_id,
{
    let headers = header_texts(msg.headers.as_slice());
    let mut trace = TextMap::new();
    inject_trace_context(&headers, &mut trace);
    let trace_id = get_text(&trace, "trace_id");
    let span_id = get_text(&trace, "span_id");
    let trace_flags = get_text(&trace, "trace_flags");
    ExecutionContext::with_trace(
        msg.topic.clone(),
        msg.partition,
        msg.offset,
        worker_id,
        trace_id,
        span_id,
        trace_flags,
        None,
        None,
        source_topic,
        fan_in_id,
    )
}

/// What the worker loop observes.
#[derive(Debug)]
pub enum WorkerEvent {
    /// A message arrived while idle.
    Received(OwnedMessage),
    /// Shutdown was signalled while idle.
    ShutdownSignalled,
    /// The message being processed was settled; `retry` is the backoff step
    /// when it is to be run again, `cancelled` whether shutdown was signalled.
    Settled { retry: Option<usize>, cancelled: bool },
}

/// What the worker loop does next.
#[derive(Debug, Clone, Copy, PartialEq, Eq, Structural)]
pub enum WorkerAction {
    /// Run the handler on the message now being processed.
    Invoke,
    /// Wait for the backoff step, then run the handler on the same message.
    RetryAfter { backoff_index: usize },
    /// Dispatch the message to the fan-out sinks, mark the worker idle and
    /// wait for the next message.
    FanOutThenIdle,
    /// Mark the worker idle and stop.
    Exit,
}

/// Which events can occur in which state: messages and shutdown are only
/// observed while idle, settlements only while processing.
pub open spec fn worker_event_valid(state: WorkerState, event: WorkerEvent) -> bool {
    match event {
        WorkerEvent::Settled { .. } => state is Processing,
        _ => state is Idle,
    }
}

/// The worker loop's step: an idle worker takes a message or stops on
/// shutdown; a settled message is retried when a retry was granted (even
/// during shutdown, so in-flight work completes), otherwise the worker stops
/// if shutdown was signalled, or fans out and goes idle.
pub open spec fn worker_step(state: WorkerState, event: WorkerEvent) -> (WorkerState, WorkerAction) {
    match event {
        WorkerEvent::Received(m) => (WorkerState::Processing(m), WorkerAction::Invoke),
        WorkerEvent::ShutdownSignalled => (WorkerState::Idle, WorkerAction::Exit),
        WorkerEvent::Settled { retry, cancelled } => match retry {
            Some(i) => (state, WorkerAction::RetryAfter { backoff_index: i }),
            None => if cancelled {
                (WorkerState::Idle, WorkerAction::Exit)
            } else {
                (WorkerState::Idle, WorkerAction::FanOutThenIdle)
            },
        },
    }
}

/// Advances the worker loop by one event.
pub fn worker_next(state: WorkerState, event: WorkerEvent) -> (r: (WorkerState, WorkerAction))
    requires
        worker_event_valid(state, event),
    ensures
        r == worker_step(state, event),
{
    match event {
        WorkerEvent::Received(m) => (WorkerState::Processing(m), WorkerAction::Invoke),
        WorkerEvent::ShutdownSignalled => (WorkerState::Idle, WorkerAction::Exit),
        WorkerEvent::Settled { retry, cancelled } => match retry {
            Some(i) => (state, WorkerAction::RetryAfter { backoff_index: i }),
            None => if cancelled {
                (WorkerState::Idle, WorkerAction::Exit)
            } else {
                (WorkerState::Idle, WorkerAction::FanOutThenIdle)
            },
        },
    }
}

/// Graceful shutdown: the worker stops only when idle or after its message
/// was settled without a retry, so no in-flight message is abandoned; and a
/// message granted a retry stays the one being processed.
pub proof fn law_worker_exits_only_when_settled(state: WorkerState, event: WorkerEvent)
    requires
        worker_event_valid(state, event),
    ensures
        worker_step(state, event).1 == WorkerAction::Exit ==> worker_step(state, event).0 is Idle
            && (state is Idle || event matches WorkerEvent::Settled { retry: None, .. }),
        event matches WorkerEvent::Settled { retry: Some(_), .. } ==> worker_step(state, event).0
            == state && state is Processing,
{
}

} // verus!
