//! Per-partition message buffer with a fixed-window deadline.

use vstd::prelude::*;
use crate::message::OwnedMessage;
use crate::time::utc_now_millis;

verus! {

/// The deadline that a first message arriving at `now_ms` starts, `max_wait_ms` later.
pub open spec fn window_end(now_ms: i64, max_wait_ms: u64) -> i64 {
    if now_ms + max_wait_ms > i64::MAX {
        i64::MAX
    } else {
        (now_ms + max_wait_ms) as i64
    }
}

/// Whether a deadline, if there is one, has passed at `now_ms`.
pub open spec fn deadline_passed(deadline: Option<i64>, now_ms: i64) -> bool {
    match deadline {
        Some(d) => now_ms >= d,
        None => false,
    }
}

/// Messages of one partition waiting to be flushed as a batch.
///
/// The deadline is set when the first message of a batch arrives and is not
/// moved by later messages; taking the batch clears it.
#[derive(Debug, Default)]
pub struct PerPartitionBuffer {
    messages: Vec<OwnedMessage>,
    deadline: Option<i64>,
}

impl PerPartitionBuffer {
    #[verifier::type_invariant]
    spec fn inv(&self) -> bool {
        self.messages@.len() == 0 ==> self.deadline is None
    }

    /// The buffered messages, oldest first.
    pub closed spec fn spec_messages(&self) -> Seq<OwnedMessage> {
        self.messages@
    }

    /// The deadline of the current batch, in milliseconds since the Unix epoch.
    pub closed spec fn spec_deadline(&self) -> Option<i64> {
        self.deadline
    }

    /// An empty buffer without a deadline.
    pub fn new() -> (r: Self)
        ensures
            r.spec_messages().len() == 0,
            r.spec_deadline() is None,
    {
        PerPartitionBuffer { messages: Vec::new(), deadline: None }
    }

    pub fn is_empty(&self) -> (r: bool)
        ensures
            r == (self.spec_messages().len() == 0),
    {
        self.messages.len() == 0
    }

    pub fn len(&self) -> (r: usize)
        ensures
            r == self.spec_messages().len(),
    {
        self.messages.len()
    }

    /// Whether the deadline has passed at `now_ms`; false without a deadline.
    pub fn is_deadline_expired_at(&self, now_ms: i64) -> (r: bool)
        ensures
            r == deadline_passed(self.spec_deadline(), now_ms),
    {
        match self.deadline {
            Some(d) => now_ms >= d,
            None => false,
        }
    }

    /// Whether the deadline has passed now.
    pub fn is_deadline_expired(&self) -> (r: bool)
        ensures
            self.spec_deadline() is None ==> !r,
            exists|now_ms: i64| r == #[trigger] deadline_passed(self.spec_deadline(), now_ms),
    {
        let now = utc_now_millis();
        self.is_deadline_expired_at(now)
    }

    /// The deadline of the current batch, if one is running.
    pub fn deadline(&self) -> (r: Option<i64>)
        ensures
            r == self.spec_deadline(),
            self.spec_messages().len() == 0 ==> r is None,
    {
        proof {
            use_type_invariant(self);
        }
        self.deadline
    }

    /// Appends a message that arrived at `now_ms`; the first message of a
    /// batch starts the window of `max_wait_ms`.
    pub fn add_at(&mut self, msg: OwnedMessage, now_ms: i64, max_wait_ms: u64)
        ensures
            final(self).spec_messages() == old(self).spec_messages().push(msg),
            final(self).spec_deadline() == if old(self).spec_messages().len() == 0 {
                Some(window_end(now_ms, max_wait_ms))
            } else {
                old(self).spec_deadline()
            },
    {
        proof {
            use_type_invariant(&*self);
        }
        let first = self.messages.len() == 0;
        let new_deadline = if first {
            let end: i128 = now_ms as i128 + max_wait_ms as i128;
            if end > i64::MAX as i128 {
                Some(i64::MAX)
            } else {
                Some(end as i64)
            }
        } else {
            self.deadline
        };
        self.deadline = None;
        let mut messages: Vec<OwnedMessage> = Vec::new();
        std::mem::swap(&mut messages, &mut self.messages);
        messages.push(msg);
        self.messages = messages;
        self.deadline = new_deadline;
    }

    /// Appends a message that arrives now.
    pub fn add(&mut self, msg: OwnedMessage, max_wait_ms: u64)
        ensures
            final(self).spec_messages() == old(self).spec_messages().push(msg),
            old(self).spec_messages().len() != 0 ==> final(self).spec_deadline() == old(
                self,
            ).spec_deadline(),
            old(self).spec_messages().len() == 0 ==> exists|now_ms: i64|
                final(self).spec_deadline() == Some(window_end(now_ms, max_wait_ms)),
    {
        let now = utc_now_millis();
        self.add_at(msg, now, max_wait_ms);
    }

    /// Takes every buffered message, oldest first, leaving the buffer empty
    /// and without a deadline.
    pub fn take_messages(&mut self) -> (r: Vec<OwnedMessage>)
        ensures
            r@ == old(self).spec_messages(),
            final(self).spec_messages().len() == 0,
            final(self).spec_deadline() is None,
    {
        let mut messages: Vec<OwnedMessage> = Vec::new();
        self.deadline = None;
        std::mem::swap(&mut messages, &mut self.messages);
        messages
    }
}

} // verus!
