//! Lifecycle of a streaming handler, which drives a long-lived async
//! generator: Starting, Running, Draining on cancellation, and Recovering
//! with exponential backoff after errors, for at most a few attempts.
//!
//! The decisions are a function from state and event to the next state and
//! the action to perform; the caller performs the action and reports back.

use vstd::prelude::*;
use crate::execution::ExecutionResult;

verus! {

/// Recovery attempts before the stream is drained.
pub const MAX_RECOVERY_ATTEMPTS: u32 = 3;

/// Phase of a streaming handler.
#[derive(Debug, Clone, Copy, PartialEq, Eq, Structural)]
pub enum StreamingState {
    /// Subscribing and creating the generator.
    Starting,
    /// Driving the generator; `failures` counts recoveries so far.
    Running { failures: u32 },
    /// Cancellation received; buffered work is drained before exiting.
    Draining,
    /// An error occurred; backing off before attempt number `attempt`.
    Recovering { attempt: u32 },
    /// The loop has exited.
    Stopped,
}

/// How one drive of the generator ended.
#[derive(Debug, Clone, Copy, PartialEq, Eq, Structural)]
pub enum StreamOutcome {
    /// The generator was exhausted normally.
    Finished,
    /// The generator raised an error.
    Failed,
    /// Any other result (a rejection or a timeout).
    Unexpected,
}

impl StreamOutcome {
    /// How a drive ended, from the result the generator ended with: a
    /// success finished it, an error failed it, anything else is unexpected.
    pub fn of_result(r: &ExecutionResult) -> (o: Self)
        ensures
            o == match *r {
                ExecutionResult::Success => StreamOutcome::Finished,
                ExecutionResult::Error { .. } => StreamOutcome::Failed,
                _ => StreamOutcome::Unexpected,
            },
    {
        match r {
            ExecutionResult::Success => StreamOutcome::Finished,
            ExecutionResult::Error { .. } => StreamOutcome::Failed,
            _ => StreamOutcome::Unexpected,
        }
    }
}

/// What happened since the last step.
#[derive(Debug, Clone, Copy, PartialEq, Eq, Structural)]
pub enum StreamingEvent {
    /// The loop comes round; `cancelled` tells whether shutdown was requested.
    Tick { cancelled: bool },
    /// The generator was driven with this outcome.
    Invoked(StreamOutcome),
    /// The backoff sleep ended.
    BackoffElapsed,
}

/// What the caller does next.
#[derive(Debug, Clone, Copy, PartialEq, Eq, Structural)]
pub enum StreamingAction {
    /// Nothing to perform; step again.
    Continue,
    /// Drive the generator and report its outcome.
    Invoke,
    /// Sleep this many seconds, then report `BackoffElapsed`.
    Backoff { secs: u64 },
    /// Acknowledge the drained work and exit.
    AckAndExit,
    /// Exit.
    Exit,
}

/// The step function of the lifecycle, as values.
pub open spec fn streaming_step(state: StreamingState, event: StreamingEvent) -> (
    StreamingState,
    StreamingAction,
) {
    match (state, event) {
        (StreamingState::Starting, _) => (
            StreamingState::Running { failures: 0 },
            StreamingAction::Continue,
        ),
        (StreamingState::Running { failures }, StreamingEvent::Tick { cancelled }) => if cancelled {
            (StreamingState::Draining, StreamingAction::Continue)
        } else {
            (state, StreamingAction::Invoke)
        },
        (StreamingState::Running { failures }, StreamingEvent::Invoked(outcome)) => match outcome {
            StreamOutcome::Finished => (StreamingState::Stopped, StreamingAction::Exit),
            StreamOutcome::Failed => (
                StreamingState::Recovering { attempt: (failures + 1) as u32 },
                StreamingAction::Continue,
            ),
            StreamOutcome::Unexpected => (StreamingState::Stopped, StreamingAction::Exit),
        },
        (StreamingState::Running { .. }, StreamingEvent::BackoffElapsed) => (
            state,
            StreamingAction::Continue,
        ),
        (StreamingState::Recovering { attempt }, StreamingEvent::BackoffElapsed) => if attempt
            < MAX_RECOVERY_ATTEMPTS {
            (StreamingState::Running { failures: attempt }, StreamingAction::Continue)
        } else {
            (StreamingState::Draining, StreamingAction::Continue)
        },
        (StreamingState::Recovering { attempt }, _) => (
            state,
            StreamingAction::Backoff { secs: pow2(attempt as nat) as u64 },
        ),
        (StreamingState::Draining, _) => (StreamingState::Stopped, StreamingAction::AckAndExit),
        (StreamingState::Stopped, _) => (StreamingState::Stopped, StreamingAction::Exit),
    }
}

/// 2 to the power `n`.
pub open spec fn pow2(n: nat) -> nat
    decreases n,
{
    if n == 0 {
        1
    } else {
        2 * pow2((n - 1) as nat)
    }
}

/// Backoff before recovery attempt `attempt`: 2^attempt seconds.
pub fn backoff_secs(attempt: u32) -> (r: u64)
    requires
        attempt < 64,
    ensures
        r == pow2(attempt as nat),
{
    proof {
        lemma_pow2_63();
    }
    let mut r: u64 = 1;
    let mut i: u32 = 0;
    while i < attempt
        invariant
            i <= attempt < 64,
            r == pow2(i as nat),
            pow2(63) <= u64::MAX,
        decreases attempt - i,
    {
        proof {
            lemma_pow2_mono((i + 1) as nat, 63);
            assert(pow2((i + 1) as nat) == 2 * pow2(i as nat));
        }
        r = r * 2;
        i += 1;
    }
    r
}

proof fn lemma_pow2_mono(a: nat, b: nat)
    requires
        a <= b,
    ensures
        pow2(a) <= pow2(b),
    decreases b,
{
    if a < b {
        lemma_pow2_mono(a, (b - 1) as nat);
    }
}

proof fn lemma_pow2_63()
    ensures
        pow2(63) <= u64::MAX,
{
    reveal_with_fuel(pow2, 64);
    assert(pow2(63) == 0x8000_0000_0000_0000);
}

/// One step of the lifecycle: the next state and the action to perform.
///
/// Recovery numbers its attempts across the whole lifecycle, so a stream
/// that keeps failing is drained after `MAX_RECOVERY_ATTEMPTS` recoveries.
pub fn streaming_next(state: StreamingState, event: StreamingEvent) -> (r: (
    StreamingState,
    StreamingAction,
))
    requires
        state matches StreamingState::Running { failures } ==> failures < u32::MAX,
        state matches StreamingState::Recovering { attempt } ==> attempt < 64,
    ensures
        r == streaming_step(state, event),
        match (state, event) {
            (StreamingState::Running { failures }, StreamingEvent::Invoked(o)) => if o == StreamOutcome::Failed {
                r == ((StreamingState::Recovering { attempt: (failures + 1) as u32 }), StreamingAction::Continue)
            } else {
                r == (StreamingState::Stopped, StreamingAction::Exit)
            },
            (StreamingState::Running { .. }, StreamingEvent::Tick { cancelled }) => if cancelled {
                r == (StreamingState::Draining, StreamingAction::Continue)
            } else {
                r == (state, StreamingAction::Invoke)
            },
            (StreamingState::Starting, _) => r == ((StreamingState::Running { failures: 0 }), StreamingAction::Continue),
            (StreamingState::Recovering { attempt }, StreamingEvent::BackoffElapsed) => if attempt < 3 {
                r == ((StreamingState::Running { failures: attempt }), StreamingAction::Continue)
            } else {
                r == (StreamingState::Draining, StreamingAction::Continue)
            },
            (StreamingState::Recovering { attempt }, e) => !(e is BackoffElapsed) ==> r == (
                state,
                (StreamingAction::Backoff { secs: pow2(attempt as nat) as u64 }),
            ),
            (StreamingState::Draining, _) => r == (StreamingState::Stopped, StreamingAction::AckAndExit),
            (StreamingState::Stopped, _) => r == (StreamingState::Stopped, StreamingAction::Exit),
            _ => true,
        },
{
    match state {
        StreamingState::Starting => (StreamingState::Running { failures: 0 }, StreamingAction::Continue),
        StreamingState::Running { failures } => match event {
            StreamingEvent::Tick { cancelled } => if cancelled {
                (StreamingState::Draining, StreamingAction::Continue)
            } else {
                (state, StreamingAction::Invoke)
            },
            StreamingEvent::Invoked(outcome) => match outcome {
                StreamOutcome::Finished => (StreamingState::Stopped, StreamingAction::Exit),
                StreamOutcome::Failed => (
                    StreamingState::Recovering { attempt: failures + 1 },
                    StreamingAction::Continue,
                ),
                StreamOutcome::Unexpected => (StreamingState::Stopped, StreamingAction::Exit),
            },
            StreamingEvent::BackoffElapsed => (state, StreamingAction::Continue),
        },
        StreamingState::Recovering { attempt } => match event {
            StreamingEvent::BackoffElapsed => if attempt < MAX_RECOVERY_ATTEMPTS {
                (StreamingState::Running { failures: attempt }, StreamingAction::Continue)
            } else {
                (StreamingState::Draining, StreamingAction::Continue)
            },
            _ => {
                proof {
                    lemma_pow2_63();
                }
                (state, StreamingAction::Backoff { secs: backoff_secs(attempt) })
            },
        },
        StreamingState::Draining => (StreamingState::Stopped, StreamingAction::AckAndExit),
        StreamingState::Stopped => (StreamingState::Stopped, StreamingAction::Exit),
    }
}

/// Reachable states of the lifecycle: failure and attempt counts never
/// exceed the recovery limit.
pub open spec fn reachable_state(s: StreamingState) -> bool {
    match s {
        StreamingState::Running { failures } => failures < MAX_RECOVERY_ATTEMPTS,
        StreamingState::Recovering { attempt } => 1 <= attempt <= MAX_RECOVERY_ATTEMPTS,
        _ => true,
    }
}

/// Every step from a reachable state leads to a reachable state, so the
/// preconditions of `streaming_next` always hold along a run.
pub proof fn law_streaming_stays_bounded(s: StreamingState, e: StreamingEvent)
    requires
        reachable_state(s),
    ensures
        reachable_state(streaming_step(s, e).0),
{
}

/// Only an error from the generator leads to recovery: a running stream
/// whose generator finished, or ended with any other result (a rejection
/// or a timeout), stops and exits; one whose generator failed backs off
/// before its next attempt, numbered one past its recoveries so far.
pub proof fn law_only_errors_recover(failures: u32, outcome: StreamOutcome)
    requires
        failures < u32::MAX,
    ensures
        outcome != StreamOutcome::Failed ==> streaming_step(
            (StreamingState::Running { failures }),
            StreamingEvent::Invoked(outcome),
        ) == (StreamingState::Stopped, StreamingAction::Exit),
        outcome == StreamOutcome::Failed ==> streaming_step(
            (StreamingState::Running { failures }),
            StreamingEvent::Invoked(outcome),
        ).0 == (StreamingState::Recovering { attempt: (failures + 1) as u32 }),
{
}

/// Backoff is exponential: the first attempt waits 2 seconds and each
/// further attempt waits twice as long as the one before.
pub proof fn law_backoff_doubles(attempt: u32, event: StreamingEvent)
    requires
        1 <= attempt < 63,
        !(event is BackoffElapsed),
    ensures
        streaming_step((StreamingState::Recovering { attempt: 1 }), event).1 == (StreamingAction::Backoff {
            secs: 2,
        }),
        streaming_step((StreamingState::Recovering { attempt }), event).1 == (StreamingAction::Backoff {
            secs: pow2(attempt as nat) as u64,
        }),
        streaming_step((StreamingState::Recovering { attempt: (attempt + 1) as u32 }), event).1 == (
        StreamingAction::Backoff { secs: (2 * pow2(attempt as nat)) as u64 }),
{
    reveal_with_fuel(pow2, 2);
    assert(pow2((attempt + 1) as nat) == 2 * pow2(attempt as nat));
}

} // verus!
