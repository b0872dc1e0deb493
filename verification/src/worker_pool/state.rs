//! Explicit state machines of the worker loops.

use vstd::prelude::*;
use crate::message::OwnedMessage;

verus! {

/// State of a single-message worker: idle, or processing exactly one message.
#[derive(Debug, Clone)]
pub enum WorkerState {
    /// Waiting for a message.
    Idle,
    /// Processing this message.
    Processing(OwnedMessage),
}

impl WorkerState {
    /// Whether a message is being processed.
    pub fn is_processing(&self) -> (r: bool)
        ensures
            r == (*self is Processing),
    {
        matches!(self, WorkerState::Processing(_))
    }

    /// The message being processed, if any.
    pub fn message(&self) -> (r: Option<&OwnedMessage>)
        ensures
            match self {
                WorkerState::Idle => r is None,
                WorkerState::Processing(m) => r == Some(m),
            },
    {
        match self {
            WorkerState::Idle => None,
            WorkerState::Processing(msg) => Some(msg),
        }
    }
}

/// State of a batch worker.
#[derive(Debug, Clone, Copy, PartialEq, Eq, Structural)]
pub enum BatchState {
    /// Accumulating, flushing on full batch or deadline.
    Normal,
    /// Flushed and waiting for capacity before accepting more.
    Backpressure,
}

impl BatchState {
    pub fn is_backpressure(&self) -> (r: bool)
        ensures
            r == (*self is Backpressure),
    {
        matches!(self, BatchState::Backpressure)
    }
}

} // verus!
