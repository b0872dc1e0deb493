//! The action a worker takes once a handler has failed on a message.

use vstd::prelude::*;
use std::time::Duration;

verus! {

/// Result of failure handling.
#[derive(Debug)]
pub enum ExecutionAction {
    /// Processed without retry or dead-lettering; acknowledge.
    Ack,
    /// Retry the same message after this delay.
    Retry { delay: Duration },
    /// Routed to the dead-letter queue; acknowledge.
    Dlq,
}

/// The action for a retry decision: retry when a retry was granted with a
/// delay, otherwise dead-letter when asked to, otherwise acknowledge.
pub fn failure_action(should_retry: bool, should_dlq: bool, delay: Option<Duration>) -> (r:
    ExecutionAction)
    ensures
        (should_retry && delay is Some) ==> r == (ExecutionAction::Retry { delay: delay->0 }),
        !(should_retry && delay is Some) && should_dlq ==> r is Dlq,
        !(should_retry && delay is Some) && !should_dlq ==> r is Ack,
{
    if should_retry {
        if let Some(d) = delay {
            return ExecutionAction::Retry { delay: d };
        }
    }
    if should_dlq {
        return ExecutionAction::Dlq;
    }
    ExecutionAction::Ack
}

} // verus!
