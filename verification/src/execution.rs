//! Execution of one message by a handler: its context, its normalized
//! outcome, and the pluggable policy applied afterwards.

use vstd::prelude::*;
use crate::failure::{handler_panic_description, FailureCategory, FailureReason};
use crate::message::OwnedMessage;

verus! {

/// Metadata carried through the execution of one message.
#[derive(Debug, Clone)]
pub struct ExecutionContext {
    pub topic: String,
    pub partition: i32,
    pub offset: i64,
    pub worker_id: usize,
    /// W3C trace id (32 hex characters from `traceparent`).
    pub trace_id: Option<String>,
    /// W3C span id (16 hex characters from `traceparent`).
    pub span_id: Option<String>,
    /// W3C trace flags (e.g. "01").
    pub trace_flags: Option<String>,
    /// Fan-out branch id; `None` outside a fan-out branch.
    pub branch_id: Option<u64>,
    /// Fan-out dispatch id; `None` outside a fan-out dispatch.
    pub fan_out_id: Option<u64>,
    /// Source topic of a fan-in message; empty for other handlers.
    pub source_topic: String,
    /// Fan-in group id; `None` outside a fan-in handler.
    pub fan_in_id: Option<u64>,
}

impl ExecutionContext {
    /// A context without trace, fan-out or fan-in information.
    pub fn new(topic: String, partition: i32, offset: i64, worker_id: usize) -> (r: Self)
        ensures
            r.topic == topic,
            r.partition == partition,
            r.offset == offset,
            r.worker_id == worker_id,
            r.trace_id is None,
            r.span_id is None,
            r.trace_flags is None,
            r.branch_id is None,
            r.fan_out_id is None,
            r.source_topic@.len() == 0,
            r.fan_in_id is None,
    {
        ExecutionContext {
            topic,
            partition,
            offset,
            worker_id,
            trace_id: None,
            span_id: None,
            trace_flags: None,
            branch_id: None,
            fan_out_id: None,
            source_topic: String::new(),
            fan_in_id: None,
        }
    }

    /// A context with every field given.
    pub fn with_trace(
        topic: String,
        partition: i32,
        offset: i64,
        worker_id: usize,
        trace_id: Option<String>,
        span_id: Option<String>,
        trace_flags: Option<String>,
        branch_id: Option<u64>,
        fan_out_id: Option<u64>,
        source_topic: String,
        fan_in_id: Option<u64>,
    ) -> (r: Self)
        ensures
            r == (ExecutionContext {
                topic,
                partition,
                offset,
                worker_id,
                trace_id,
                span_id,
                trace_flags,
                branch_id,
                fan_out_id,
                source_topic,
                fan_in_id,
            }),
    {
        ExecutionContext {
            topic,
            partition,
            offset,
            worker_id,
            trace_id,
            span_id,
            trace_flags,
            branch_id,
            fan_out_id,
            source_topic,
            fan_in_id,
        }
    }
}

/// Normalized outcome of running a handler on a message.
#[derive(Debug, Clone)]
pub enum ExecutionResult {
    /// The handler completed.
    Success,
    /// The handler raised an exception.
    Error { reason: FailureReason, exception: String, traceback: String },
    /// The handler explicitly rejected the message.
    Rejected { reason: FailureReason, reason_str: String },
    /// The handler did not finish within its timeout.
    Timeout { info: TimeoutInfo },
}

/// Details of a handler timeout.
#[derive(Debug, Clone, Copy, PartialEq, Eq, Structural)]
pub struct TimeoutInfo {
    pub timeout_ms: u64,
    pub last_processed_offset: Option<i64>,
}

/// Outcome of running a batch handler on a batch.
#[derive(Debug, Clone)]
pub enum BatchExecutionResult {
    /// Every message succeeded; their offsets in batch order.
    AllSuccess(Vec<i64>),
    /// The batch failed as a whole.
    AllFailure(FailureReason),
}

impl ExecutionResult {
    pub fn is_ok(&self) -> (r: bool)
        ensures
            r == (*self is Success),
    {
        matches!(self, ExecutionResult::Success)
    }

    pub fn is_error(&self) -> (r: bool)
        ensures
            r == (*self is Error),
    {
        matches!(self, ExecutionResult::Error { .. })
    }

    pub fn is_rejected(&self) -> (r: bool)
        ensures
            r == (*self is Rejected),
    {
        matches!(self, ExecutionResult::Rejected { .. })
    }

    pub fn is_timeout(&self) -> (r: bool)
        ensures
            r == (*self is Timeout),
    {
        matches!(self, ExecutionResult::Timeout { .. })
    }

    /// The failure reason of a failed execution.
    pub fn failure_reason(&self) -> (r: Option<&FailureReason>)
        ensures
            match self {
                ExecutionResult::Success => r is None,
                ExecutionResult::Error { reason, .. } => r == Some(reason),
                ExecutionResult::Rejected { reason, .. } => r == Some(reason),
                ExecutionResult::Timeout { .. } => r is None,
            },
    {
        match self {
            ExecutionResult::Success => None,
            ExecutionResult::Error { reason, .. } => Some(reason),
            ExecutionResult::Rejected { reason, .. } => Some(reason),
            ExecutionResult::Timeout { .. } => None,
        }
    }
}


/// The failure reported for a result: its category and description.
pub open spec fn is_handler_panic(reason: FailureReason) -> bool {
    reason.category == FailureCategory::Terminal && reason.description@ == handler_panic_description()
}

/// The offsets of a batch's messages, in batch order.
pub open spec fn offsets_of(messages: Seq<OwnedMessage>) -> Seq<i64> {
    messages.map_values(|m: OwnedMessage| m.offset)
}

impl ExecutionResult {
    /// The result of a handler that panicked: a terminal error with
    /// exception "Panic" and the given traceback.
    pub fn handler_panic(traceback: String) -> (r: Self)
        ensures
            r matches ExecutionResult::Error { reason, exception, traceback: t } && is_handler_panic(
                reason,
            ) && exception@ == "Panic"@ && t == traceback,
    {
        ExecutionResult::Error {
            reason: FailureReason::handler_panic(),
            exception: String::from_str("Panic"),
            traceback,
        }
    }

    /// The result of a handler that did not finish within `timeout_ms`.
    pub fn timed_out(timeout_ms: u64) -> (r: Self)
        ensures
            r == (ExecutionResult::Timeout {
                info: TimeoutInfo { timeout_ms, last_processed_offset: None },
            }),
    {
        ExecutionResult::Timeout { info: TimeoutInfo { timeout_ms, last_processed_offset: None } }
    }

    /// The result of a single message run by a batch handler: success when
    /// the batch succeeded, otherwise an error carrying the batch's failure.
    pub fn from_batch(r: BatchExecutionResult) -> (out: Self)
        ensures
            match r {
                BatchExecutionResult::AllSuccess(_) => out is Success,
                BatchExecutionResult::AllFailure(reason) => out matches ExecutionResult::Error {
                    reason: r2,
                    exception,
                    traceback,
                } && r2 == reason && exception@ == "BatchHandlerError"@ && traceback@
                    == "Batch handler failed"@,
            },
    {
        match r {
            BatchExecutionResult::AllSuccess(_) => ExecutionResult::Success,
            BatchExecutionResult::AllFailure(reason) => ExecutionResult::Error {
                reason,
                exception: String::from_str("BatchHandlerError"),
                traceback: String::from_str("Batch handler failed"),
            },
        }
    }

    /// The result of a streaming handler from the result its generator ended
    /// with: success and errors as they are; anything else a terminal error.
    pub fn streaming_outcome(r: ExecutionResult) -> (out: Self)
        ensures
            match r {
                ExecutionResult::Success => out is Success,
                ExecutionResult::Error { .. } => out == r,
                _ => out matches ExecutionResult::Error { reason, exception, traceback }
                    && is_handler_panic(reason) && exception@ == "StreamingError"@ && traceback@
                    == "Unexpected result in streaming loop"@,
            },
    {
        match r {
            ExecutionResult::Success => ExecutionResult::Success,
            ExecutionResult::Error { reason, exception, traceback } => ExecutionResult::Error {
                reason,
                exception,
                traceback,
            },
            _ => ExecutionResult::Error {
                reason: FailureReason::handler_panic(),
                exception: String::from_str("StreamingError"),
                traceback: String::from_str("Unexpected result in streaming loop"),
            },
        }
    }
}

fn batch_offsets(messages: &[OwnedMessage]) -> (r: Vec<i64>)
    ensures
        r@ == offsets_of(messages@),
{
    let mut out: Vec<i64> = Vec::new();
    let mut i: usize = 0;
    while i < messages.len()
        invariant
            i <= messages@.len(),
            out@ == offsets_of(messages@.subrange(0, i as int)),
        decreases messages.len() - i,
    {
        out.push(messages[i].offset);
        proof {
            assert(out@ =~= offsets_of(messages@.subrange(0, i + 1)));
        }
        i += 1;
    }
    proof {
        assert(messages@.subrange(0, messages@.len() as int) =~= messages@);
    }
    out
}

impl BatchExecutionResult {
    /// A successful batch: the offsets of its messages, in batch order.
    pub fn success_for(messages: &[OwnedMessage]) -> (r: Self)
        ensures
            r matches BatchExecutionResult::AllSuccess(offsets) && offsets@ == offsets_of(messages@),
    {
        BatchExecutionResult::AllSuccess(batch_offsets(messages))
    }

    /// The batch result of an asynchronous batch handler from the result its
    /// coroutine ended with: success lists the messages' offsets, an error
    /// fails the batch with its reason, a rejection or timeout fails it as a
    /// handler panic.
    pub fn from_single(r: ExecutionResult, messages: &[OwnedMessage]) -> (out: Self)
        ensures
            match r {
                ExecutionResult::Success => out matches BatchExecutionResult::AllSuccess(offsets)
                    && offsets@ == offsets_of(messages@),
                ExecutionResult::Error { reason, .. } => out == BatchExecutionResult::AllFailure(reason),
                _ => out matches BatchExecutionResult::AllFailure(reason) && is_handler_panic(reason),
            },
    {
        match r {
            ExecutionResult::Success => BatchExecutionResult::success_for(messages),
            ExecutionResult::Error { reason, .. } => BatchExecutionResult::AllFailure(reason),
            _ => BatchExecutionResult::AllFailure(FailureReason::handler_panic()),
        }
    }
}

/// What an executor decides after an execution.
#[derive(Debug, Clone, Copy, PartialEq, Eq, Structural)]
pub enum ExecutorOutcome {
    Ack,
    Retry,
    Rejected,
}

/// Policy applied after each execution; users may supply their own.
pub trait Executor: Send + Sync {
    fn execute(
        &self,
        ctx: &ExecutionContext,
        message: &OwnedMessage,
        result: &ExecutionResult,
    ) -> ExecutorOutcome;
}

/// Fire-and-forget executor: acknowledges whatever the outcome.
#[derive(Debug, Clone, Copy, Default)]
pub struct DefaultExecutor;

impl Executor for DefaultExecutor {
    fn execute(
        &self,
        ctx: &ExecutionContext,
        message: &OwnedMessage,
        result: &ExecutionResult,
    ) -> (r: ExecutorOutcome)
        ensures
            r == ExecutorOutcome::Ack,
    {
        ExecutorOutcome::Ack
    }
}

/// An executor that also retries.
pub trait RetryExecutor: Executor {

}

/// A sink for offset acknowledgements.
pub trait OffsetAck: Send + Sync {

}

/// A handler that runs asynchronously.
pub trait AsyncHandler: Send + Sync {

}

} // verus!
