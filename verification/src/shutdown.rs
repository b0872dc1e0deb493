//! Graceful shutdown: the four-phase lifecycle Running, Draining, Finalizing,
//! Done, entered strictly in that order.

use vstd::prelude::*;
use std::time::Duration;
use tokio_util::sync::CancellationToken;
use crate::time::{duration_from_secs, secs_duration};

verus! {

#[verifier::external_type_specification]
#[verifier::external_body]
pub struct ExCancellationToken(tokio_util::sync::CancellationToken);

/// `tokio_util::sync::CancellationToken::new`.
///
/// Trusted only in that it returns: the token's cancellation state is shared
/// and changes over time, so nothing is stated about it.
#[verifier::external_body]
fn new_cancel_token() -> CancellationToken {
    CancellationToken::new()
}

/// `CancellationToken::clone`: a handle to the same token.
///
/// Trusted: the crate's source builds the clone around the same shared
/// state (the same `Arc`), so cancelling either cancels both, and the crate's
/// `==` holds between them; the clone is stated equal to the token.
#[verifier::external_body]
fn clone_cancel_token(token: &CancellationToken) -> (r: CancellationToken)
    ensures
        r == *token,
{
    token.clone()
}

/// Phase of the shutdown lifecycle.
#[derive(Debug, Clone, Copy, PartialEq, Eq, Structural)]
pub enum ShutdownPhase {
    /// Accepting and processing messages.
    Running,
    /// Shutdown began; in-flight work is draining.
    Draining,
    /// Drained; final offsets are being committed.
    Finalizing,
    /// Shutdown complete.
    Done,
}

impl ShutdownPhase {
    /// The phase's name.
    pub fn to_string(&self) -> (r: String)
        ensures
            r@ == match *self {
                ShutdownPhase::Running => "Running"@,
                ShutdownPhase::Draining => "Draining"@,
                ShutdownPhase::Finalizing => "Finalizing"@,
                ShutdownPhase::Done => "Done"@,
            },
    {
        match self {
            ShutdownPhase::Running => String::from_str("Running"),
            ShutdownPhase::Draining => String::from_str("Draining"),
            ShutdownPhase::Finalizing => String::from_str("Finalizing"),
            ShutdownPhase::Done => String::from_str("Done"),
        }
    }
}

/// Coordinates graceful shutdown across the dispatcher, the workers and the
/// offset committer, each of which holds a cancellation token.
pub struct ShutdownCoordinator {
    phase: ShutdownPhase,
    drain_timeout_secs: u64,
    dispatcher_cancel: CancellationToken,
    worker_cancel: CancellationToken,
    committer_cancel: CancellationToken,
}

impl ShutdownCoordinator {
    pub closed spec fn spec_phase(&self) -> ShutdownPhase {
        self.phase
    }

    pub closed spec fn spec_drain_timeout_secs(&self) -> u64 {
        self.drain_timeout_secs
    }

    /// The token the message dispatcher stops on.
    pub closed spec fn spec_dispatcher_cancel(&self) -> CancellationToken {
        self.dispatcher_cancel
    }

    /// The token the workers stop on.
    pub closed spec fn spec_worker_cancel(&self) -> CancellationToken {
        self.worker_cancel
    }

    /// The token the offset committer stops on.
    pub closed spec fn spec_committer_cancel(&self) -> CancellationToken {
        self.committer_cancel
    }

    /// A coordinator in the `Running` phase that waits up to
    /// `drain_timeout_secs` for workers to drain.
    pub fn new(drain_timeout_secs: u64) -> (r: Self)
        ensures
            r.spec_phase() == ShutdownPhase::Running,
            r.spec_drain_timeout_secs() == drain_timeout_secs,
    {
        ShutdownCoordinator {
            phase: ShutdownPhase::Running,
            drain_timeout_secs,
            dispatcher_cancel: new_cancel_token(),
            worker_cancel: new_cancel_token(),
            committer_cancel: new_cancel_token(),
        }
    }

    /// The current phase.
    pub fn phase(&self) -> (r: ShutdownPhase)
        ensures
            r == self.spec_phase(),
    {
        self.phase
    }

    /// `Running` to `Draining`. Returns the dispatcher, worker and committer
    /// tokens for the components to stop on.
    pub fn begin_draining(&mut self) -> (r: (CancellationToken, CancellationToken, CancellationToken))
        requires
            old(self).spec_phase() == ShutdownPhase::Running,
        ensures
            final(self).spec_phase() == ShutdownPhase::Draining,
            r.0 == old(self).spec_dispatcher_cancel(),
            r.1 == old(self).spec_worker_cancel(),
            r.2 == old(self).spec_committer_cancel(),
            final(self).spec_drain_timeout_secs() == old(self).spec_drain_timeout_secs(),
            final(self).spec_dispatcher_cancel() == old(self).spec_dispatcher_cancel(),
            final(self).spec_worker_cancel() == old(self).spec_worker_cancel(),
            final(self).spec_committer_cancel() == old(self).spec_committer_cancel(),
    {
        self.phase = ShutdownPhase::Draining;
        (
            clone_cancel_token(&self.dispatcher_cancel),
            clone_cancel_token(&self.worker_cancel),
            clone_cancel_token(&self.committer_cancel),
        )
    }

    /// `Draining` to `Finalizing`, once the workers have drained.
    pub fn begin_finalizing(&mut self)
        requires
            old(self).spec_phase() == ShutdownPhase::Draining,
        ensures
            final(self).spec_phase() == ShutdownPhase::Finalizing,
            final(self).spec_drain_timeout_secs() == old(self).spec_drain_timeout_secs(),
            final(self).spec_dispatcher_cancel() == old(self).spec_dispatcher_cancel(),
            final(self).spec_worker_cancel() == old(self).spec_worker_cancel(),
            final(self).spec_committer_cancel() == old(self).spec_committer_cancel(),
    {
        self.phase = ShutdownPhase::Finalizing;
    }

    /// `Finalizing` to `Done`, once the final offsets are committed.
    pub fn set_done(&mut self)
        requires
            old(self).spec_phase() == ShutdownPhase::Finalizing,
        ensures
            final(self).spec_phase() == ShutdownPhase::Done,
            final(self).spec_drain_timeout_secs() == old(self).spec_drain_timeout_secs(),
            final(self).spec_dispatcher_cancel() == old(self).spec_dispatcher_cancel(),
            final(self).spec_worker_cancel() == old(self).spec_worker_cancel(),
            final(self).spec_committer_cancel() == old(self).spec_committer_cancel(),
    {
        self.phase = ShutdownPhase::Done;
    }

    /// Whether shutdown is complete.
    pub fn is_done(&self) -> (r: bool)
        ensures
            r == (self.spec_phase() == ShutdownPhase::Done),
    {
        self.phase == ShutdownPhase::Done
    }

    /// How long workers may take to drain.
    pub fn drain_timeout(&self) -> (r: Duration)
        ensures
            r == secs_duration(self.spec_drain_timeout_secs()),
    {
        duration_from_secs(self.drain_timeout_secs)
    }

    /// A handle to the committer's cancellation token.
    pub fn committer_cancel_token(&self) -> (r: CancellationToken)
        ensures
            r == self.spec_committer_cancel(),
    {
        clone_cancel_token(&self.committer_cancel)
    }
}

} // verus!
