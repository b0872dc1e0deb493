//! Per-message retry bookkeeping: how many times each (topic, partition,
//! offset) has failed, when it is granted another attempt, and when it is
//! exhausted and goes to the dead-letter queue.

use vstd::prelude::*;
use crate::failure::{FailureCategory, FailureReason};
use crate::seqs::{first_index, lemma_first_index_at, lemma_first_index_none, lemma_first_index_spec};
use crate::text::str_eq;
use crate::time::utc_now_millis;

verus! {

/// Retry state of one message.
#[derive(Debug)]
pub enum RetryState {
    /// The message is being retried.
    Retrying {
        topic: String,
        partition: i32,
        offset: i64,
        /// Number of failures so far (1-based).
        attempt: usize,
        last_failure: FailureReason,
        /// When the message first failed, in milliseconds since the Unix epoch.
        first_failure_ms: i64,
    },
    /// The message used up its retries and goes to the dead-letter queue.
    Exhausted {
        topic: String,
        partition: i32,
        offset: i64,
        last_failure: FailureReason,
        first_failure_ms: i64,
    },
}

/// Identity of a message: topic, partition and offset.
pub type MessageKey = (Seq<char>, i32, i64);

/// What is tracked of a message, as values.
pub struct RetryView {
    pub exhausted: bool,
    /// Failures so far while retrying; 0 once exhausted.
    pub attempt: nat,
    pub last_category: FailureCategory,
    pub last_description: Seq<char>,
    pub first_failure_ms: i64,
}

pub open spec fn key_of(s: RetryState) -> MessageKey {
    match s {
        RetryState::Retrying { topic, partition, offset, .. } => (topic@, partition, offset),
        RetryState::Exhausted { topic, partition, offset, .. } => (topic@, partition, offset),
    }
}

pub open spec fn view_of(s: RetryState) -> RetryView {
    match s {
        RetryState::Retrying { attempt, last_failure, first_failure_ms, .. } => RetryView {
            exhausted: false,
            attempt: attempt as nat,
            last_category: last_failure.category,
            last_description: last_failure.description@,
            first_failure_ms,
        },
        RetryState::Exhausted { last_failure, first_failure_ms, .. } => RetryView {
            exhausted: true,
            attempt: 0,
            last_category: last_failure.category,
            last_description: last_failure.description@,
            first_failure_ms,
        },
    }
}

impl RetryState {
    pub fn topic(&self) -> (r: &str)
        ensures
            r@ == key_of(*self).0,
    {
        match self {
            RetryState::Retrying { topic, .. } => topic.as_str(),
            RetryState::Exhausted { topic, .. } => topic.as_str(),
        }
    }

    pub fn partition(&self) -> (r: i32)
        ensures
            r == key_of(*self).1,
    {
        match self {
            RetryState::Retrying { partition, .. } => *partition,
            RetryState::Exhausted { partition, .. } => *partition,
        }
    }

    pub fn offset(&self) -> (r: i64)
        ensures
            r == key_of(*self).2,
    {
        match self {
            RetryState::Retrying { offset, .. } => *offset,
            RetryState::Exhausted { offset, .. } => *offset,
        }
    }

    /// The attempt count while retrying; 0 once exhausted.
    pub fn attempt(&self) -> (r: usize)
        ensures
            r == view_of(*self).attempt,
    {
        match self {
            RetryState::Retrying { attempt, .. } => *attempt,
            RetryState::Exhausted { .. } => 0,
        }
    }
}

/// What the tracked entry of a message becomes after a failure with this
/// category and description, given the retry limit. A non-retryable failure
/// changes nothing; a message's first failure starts at attempt 1 (stamped
/// `now`), each later one adds an attempt, and a failure once `max_attempts`
/// retries were granted exhausts the message. An exhausted message stays so.
pub open spec fn next_entry(
    old: Option<RetryView>,
    category: FailureCategory,
    description: Seq<char>,
    max_attempts: nat,
    now: i64,
) -> Option<RetryView> {
    if category != FailureCategory::Retryable {
        old
    } else {
        match old {
            Some(e) => if e.exhausted {
                Some(e)
            } else if e.attempt >= max_attempts {
                Some(
                    RetryView {
                        exhausted: true,
                        attempt: 0,
                        last_category: category,
                        last_description: description,
                        first_failure_ms: e.first_failure_ms,
                    },
                )
            } else {
                Some(
                    RetryView {
                        exhausted: false,
                        attempt: e.attempt + 1,
                        last_category: category,
                        last_description: description,
                        first_failure_ms: e.first_failure_ms,
                    },
                )
            },
            None => if max_attempts == 0 {
                Some(
                    RetryView {
                        exhausted: true,
                        attempt: 0,
                        last_category: category,
                        last_description: description,
                        first_failure_ms: now,
                    },
                )
            } else {
                Some(
                    RetryView {
                        exhausted: false,
                        attempt: 1,
                        last_category: category,
                        last_description: description,
                        first_failure_ms: now,
                    },
                )
            },
        }
    }
}

/// The answer to a failure: (retry, dead-letter, index of the backoff step
/// for the retry). A retry is granted exactly when the failure is retryable
/// and the message has had fewer than `max_attempts` retries; the backoff
/// index counts the retries granted before this one.
pub open spec fn failure_outcome(
    old: Option<RetryView>,
    category: FailureCategory,
    max_attempts: nat,
) -> (bool, bool, Option<usize>) {
    if category != FailureCategory::Retryable {
        (false, true, None)
    } else {
        match old {
            Some(e) => if e.exhausted || e.attempt >= max_attempts {
                (false, true, None)
            } else {
                (true, false, Some(e.attempt as usize))
            },
            None => if max_attempts == 0 {
                (false, true, None)
            } else {
                (true, false, Some(0))
            },
        }
    }
}

pub open spec fn key_pred(k: MessageKey) -> spec_fn(RetryState) -> bool {
    |s: RetryState| key_of(s) == k
}

pub open spec fn entries_of(states: Seq<RetryState>) -> Map<MessageKey, RetryView> {
    Map::new(
        |k: MessageKey| first_index(states, key_pred(k)) is Some,
        |k: MessageKey| view_of(states[first_index(states, key_pred(k))->0]),
    )
}

pub open spec fn distinct_keys(states: Seq<RetryState>) -> bool {
    forall|i: int, j: int|
        0 <= i < j < states.len() ==> key_of(#[trigger] states[i]) != key_of(#[trigger] states[j])
}

proof fn lemma_lookup_at(states: Seq<RetryState>, i: int)
    requires
        distinct_keys(states),
        0 <= i < states.len(),
    ensures
        first_index(states, key_pred(key_of(states[i]))) == Some(i),
{
    let p = key_pred(key_of(states[i]));
    assert forall|j: int| 0 <= j < i implies !p(#[trigger] states[j]) by {}
    lemma_first_index_at(states, p, i);
}

proof fn lemma_lookup_absent(states: Seq<RetryState>, k: MessageKey)
    requires
        forall|j: int| 0 <= j < states.len() ==> key_of(#[trigger] states[j]) != k,
    ensures
        first_index(states, key_pred(k)) is None,
{
    lemma_first_index_none(states, key_pred(k));
}

/// Replacing (or appending) the entry whose key is `key_of(s)` updates only that key.
proof fn lemma_entries_update(states: Seq<RetryState>, i: int, s: RetryState)
    requires
        distinct_keys(states),
        0 <= i <= states.len(),
        i < states.len() ==> key_of(states[i]) == key_of(s),
        i == states.len() ==> forall|j: int|
            0 <= j < states.len() ==> key_of(#[trigger] states[j]) != key_of(s),
    ensures
        distinct_keys(if i < states.len() { states.update(i, s) } else { states.push(s) }),
        entries_of(if i < states.len() { states.update(i, s) } else { states.push(s) })
            == entries_of(states).insert(key_of(s), view_of(s)),
{
    let new = if i < states.len() { states.update(i, s) } else { states.push(s) };
    assert forall|a: int, b: int| 0 <= a < b < new.len() implies key_of(#[trigger] new[a])
        != key_of(#[trigger] new[b]) by {
        if a != i && b != i {
            assert(new[a] == states[a] && new[b] == states[b]);
        } else if a == i {
            assert(new[b] == states[b]);
        } else {
            assert(new[a] == states[a]);
        }
    }
    let k = key_of(s);
    let target = entries_of(states).insert(k, view_of(s));
    assert forall|k2: MessageKey|
        #![trigger entries_of(new).dom().contains(k2)]
        #![trigger target.dom().contains(k2)]
        entries_of(new).dom().contains(k2) == target.dom().contains(k2)
        && (entries_of(new).dom().contains(k2) ==> entries_of(new)[k2] == target[k2]) by {
        if k2 == k {
            lemma_lookup_at(new, i);
        } else {
            lemma_first_index_spec(states, key_pred(k2));
            match first_index(states, key_pred(k2)) {
                Some(j) => {
                    assert(j != i);
                    assert(new[j] == states[j]);
                    lemma_lookup_at(new, j);
                    lemma_lookup_at(states, j);
                },
                None => {
                    assert forall|j: int| 0 <= j < new.len() implies key_of(#[trigger] new[j]) != k2 by {
                        if j != i {
                            assert(new[j] == states[j]);
                            assert(!key_pred(k2)(states[j]));
                        }
                    }
                    lemma_lookup_absent(new, k2);
                },
            }
        }
    }
    assert(entries_of(new) =~= entries_of(states).insert(k, view_of(s)));
}

/// Removing entry `i` forgets exactly its key.
proof fn lemma_entries_remove(states: Seq<RetryState>, i: int)
    requires
        distinct_keys(states),
        0 <= i < states.len(),
    ensures
        distinct_keys(states.remove(i)),
        entries_of(states.remove(i)) == entries_of(states).remove(key_of(states[i])),
{
    let new = states.remove(i);
    let k = key_of(states[i]);
    assert forall|a: int, b: int| 0 <= a < b < new.len() implies key_of(#[trigger] new[a])
        != key_of(#[trigger] new[b]) by {
        let a0 = if a < i { a } else { a + 1 };
        let b0 = if b < i { b } else { b + 1 };
        assert(new[a] == states[a0] && new[b] == states[b0]);
    }
    let target = entries_of(states).remove(k);
    assert forall|k2: MessageKey|
        #![trigger entries_of(new).dom().contains(k2)]
        #![trigger target.dom().contains(k2)]
        entries_of(new).dom().contains(k2) == target.dom().contains(k2)
        && (entries_of(new).dom().contains(k2) ==> entries_of(new)[k2] == target[k2]) by {
        lemma_first_index_spec(states, key_pred(k2));
        if k2 == k {
            assert forall|j: int| 0 <= j < new.len() implies key_of(#[trigger] new[j]) != k2 by {
                let j0 = if j < i { j } else { j + 1 };
                assert(new[j] == states[j0]);
            }
            lemma_lookup_absent(new, k2);
        } else {
            match first_index(states, key_pred(k2)) {
                Some(j) => {
                    let j1 = if j < i { j } else { j - 1 };
                    assert(new[j1] == states[j]);
                    lemma_lookup_at(new, j1);
                    lemma_lookup_at(states, j);
                },
                None => {
                    assert forall|j: int| 0 <= j < new.len() implies key_of(#[trigger] new[j]) != k2 by {
                        let j0 = if j < i { j } else { j + 1 };
                        assert(new[j] == states[j0]);
                        assert(!key_pred(k2)(states[j0]));
                    }
                    lemma_lookup_absent(new, k2);
                },
            }
        }
    }
    assert(entries_of(new) =~= entries_of(states).remove(k));
}


/// The tracked entry of a message after the given retryable failures in a
/// row (each with its description and time), starting untracked.
pub open spec fn after_retryable_failures(failures: Seq<(Seq<char>, i64)>, max_attempts: nat) -> Option<RetryView>
    decreases failures.len(),
{
    if failures.len() == 0 {
        None
    } else {
        next_entry(
            after_retryable_failures(failures.drop_last(), max_attempts),
            FailureCategory::Retryable,
            failures.last().0,
            max_attempts,
            failures.last().1,
        )
    }
}

/// The retry budget: a message that keeps failing with retryable failures
/// is retried on each of its first `max_attempts` failures, with backoff
/// steps 0, 1, 2, ..., and dead-lettered on the next failure; while it is
/// retried its attempt count is the number of failures so far, and once
/// dead-lettered it stays exhausted.
pub proof fn law_retry_budget(failures: Seq<(Seq<char>, i64)>, max_attempts: nat)
    requires
        max_attempts <= usize::MAX,
    ensures
        failure_outcome(
            after_retryable_failures(failures, max_attempts),
            FailureCategory::Retryable,
            max_attempts,
        ) == if failures.len() < max_attempts {
            (true, false, Some(failures.len() as usize))
        } else {
            (false, true, None::<usize>)
        },
        0 < failures.len() <= max_attempts ==> (after_retryable_failures(failures, max_attempts) matches Some(
            e,
        ) && !e.exhausted && e.attempt == failures.len()),
        failures.len() > max_attempts ==> (after_retryable_failures(failures, max_attempts) matches Some(
            e,
        ) && e.exhausted),
    decreases failures.len(),
{
    if failures.len() > 0 {
        law_retry_budget(failures.drop_last(), max_attempts);
    }
}

/// A failure that is not retryable is dead-lettered at once and leaves the
/// message's tracked entry as it was.
pub proof fn law_non_retryable_dead_letters(
    old: Option<RetryView>,
    category: FailureCategory,
    description: Seq<char>,
    max_attempts: nat,
    now: i64,
)
    requires
        category != FailureCategory::Retryable,
    ensures
        failure_outcome(old, category, max_attempts) == (false, true, None::<usize>),
        next_entry(old, category, description, max_attempts, now) == old,
{
}

/// An exhausted message stays exhausted and is dead-lettered on every
/// further failure.
pub proof fn law_exhausted_stays_exhausted(
    e: RetryView,
    category: FailureCategory,
    description: Seq<char>,
    max_attempts: nat,
    now: i64,
)
    requires
        e.exhausted,
    ensures
        next_entry(Some(e), category, description, max_attempts, now) == Some(e),
        failure_outcome(Some(e), category, max_attempts) == (false, true, None::<usize>),
{
}

/// Tracks retry state per (topic, partition, offset) under a retry limit.
#[derive(Debug)]
pub struct RetryCoordinator {
    states: Vec<RetryState>,
    max_attempts: usize,
}

impl RetryCoordinator {
    #[verifier::type_invariant]
    spec fn inv(&self) -> bool {
        distinct_keys(self.states@)
    }

    /// The tracked messages and their states.
    pub closed spec fn entries(&self) -> Map<MessageKey, RetryView> {
        entries_of(self.states@)
    }

    /// Retries granted to a message before it is dead-lettered.
    pub closed spec fn spec_max_attempts(&self) -> nat {
        self.max_attempts as nat
    }

    /// The tracked entry of a message, if any.
    pub open spec fn entry(&self, k: MessageKey) -> Option<RetryView> {
        if self.entries().dom().contains(k) {
            Some(self.entries()[k])
        } else {
            None
        }
    }

    /// A coordinator that grants each message up to `max_attempts` retries.
    pub fn with_max_attempts(max_attempts: usize) -> (r: Self)
        ensures
            r.entries().is_empty(),
            r.spec_max_attempts() == max_attempts,
    {
        let r = RetryCoordinator { states: Vec::new(), max_attempts };
        assert(r.entries() =~= Map::empty());
        r
    }

    /// Retries granted to a message before it is dead-lettered.
    pub fn max_attempts(&self) -> (r: usize)
        ensures
            r == self.spec_max_attempts(),
    {
        self.max_attempts
    }

    fn find(&self, topic: &str, partition: i32, offset: i64) -> (r: Option<usize>)
        ensures
            match r {
                Some(i) => i < self.states@.len() && key_of(self.states@[i as int]) == (
                    topic@,
                    partition,
                    offset,
                ) && first_index(self.states@, key_pred((topic@, partition, offset))) == Some(
                    i as int,
                ),
                None => first_index(self.states@, key_pred((topic@, partition, offset))) is None
                    && forall|j: int|
                    0 <= j < self.states@.len() ==> key_of(#[trigger] self.states@[j]) != (
                        topic@,
                        partition,
                        offset,
                    ),
            },
    {
        proof {
            use_type_invariant(self);
        }
        let ghost k = (topic@, partition, offset);
        let mut i: usize = 0;
        while i < self.states.len()
            invariant
                i <= self.states@.len(),
                distinct_keys(self.states@),
                k == (topic@, partition, offset),
                forall|j: int| 0 <= j < i ==> key_of(#[trigger] self.states@[j]) != k,
            decreases self.states.len() - i,
        {
            let s = &self.states[i];
            if s.partition() == partition && s.offset() == offset && str_eq(s.topic(), topic) {
                proof {
                    lemma_lookup_at(self.states@, i as int);
                }
                return Some(i);
            }
            i += 1;
        }
        proof {
            lemma_lookup_absent(self.states@, k);
        }
        None
    }

    /// Records a failed attempt and answers (retry, dead-letter, backoff index).
    ///
    /// A retryable failure is granted a retry while the message has had fewer
    /// than `max_attempts` retries; otherwise, and for any non-retryable or
    /// terminal failure, the message goes to the dead-letter queue. The
    /// backoff index selects the delay of the retry from the retry schedule.
    pub fn record_failure(&mut self, topic: &str, partition: i32, offset: i64, reason: &FailureReason)
        -> (r: (bool, bool, Option<usize>))
        ensures
            r == failure_outcome(
                old(self).entry((topic@, partition, offset)),
                reason.category,
                old(self).spec_max_attempts(),
            ),
            final(self).spec_max_attempts() == old(self).spec_max_attempts(),
            exists|now: i64| #![trigger next_entry(old(self).entry((topic@, partition, offset)), reason.category, reason.description@, old(self).spec_max_attempts(), now)]
                final(self).entry((topic@, partition, offset)) == next_entry(
                    old(self).entry((topic@, partition, offset)),
                    reason.category,
                    reason.description@,
                    old(self).spec_max_attempts(),
                    now,
                ),
            final(self).entries().remove((topic@, partition, offset)) == old(self).entries().remove(
                (topic@, partition, offset),
            ),
    {
        proof {
            use_type_invariant(&*self);
        }
        let ghost k = (topic@, partition, offset);
        let ghost old_entries = self.entries();
        if reason.category() != FailureCategory::Retryable {
            assert(next_entry(self.entry(k), reason.category, reason.description@, self.spec_max_attempts(), 0) == self.entry(k));
            return (false, true, None);
        }
        let found = self.find(topic, partition, offset);
        match found {
            Some(i) => {
                let (exhausted, attempt, first_ms) = match &self.states[i] {
                    RetryState::Retrying { attempt, first_failure_ms, .. } => (false, *attempt, *first_failure_ms),
                    RetryState::Exhausted { first_failure_ms, .. } => (true, 0, *first_failure_ms),
                };
                proof {
                    assert(self.entry(k) == Some(view_of(self.states@[i as int])));
                }
                if exhausted {
                    assert(next_entry(self.entry(k), reason.category, reason.description@, self.spec_max_attempts(), 0) == self.entry(k));
                    return (false, true, None);
                }
                let ghost old_states = self.states@;
                if attempt >= self.max_attempts {
                    let s = RetryState::Exhausted {
                        topic: String::from_str(topic),
                        partition,
                        offset,
                        last_failure: reason.clone(),
                        first_failure_ms: first_ms,
                    };
                    proof {
                        lemma_entries_update(old_states, i as int, s);
                    }
                    let mut states: Vec<RetryState> = Vec::new();
                    std::mem::swap(&mut states, &mut self.states);
                    states.set(i, s);
                    self.states = states;
                    proof {
                        assert(self.states@ == old_states.update(i as int, s));
                        assert(self.entries() == old_entries.insert(k, view_of(s)));
                        assert(self.entries().remove(k) =~= old_entries.remove(k));
                        assert(self.entry(k) == next_entry(old_entries_entry(old_entries, k), reason.category, reason.description@, self.max_attempts as nat, 0));
                    }
                    return (false, true, None);
                }
                let s = RetryState::Retrying {
                    topic: String::from_str(topic),
                    partition,
                    offset,
                    attempt: attempt + 1,
                    last_failure: reason.clone(),
                    first_failure_ms: first_ms,
                };
                proof {
                    lemma_entries_update(old_states, i as int, s);
                }
                let mut states: Vec<RetryState> = Vec::new();
                    std::mem::swap(&mut states, &mut self.states);
                    states.set(i, s);
                    self.states = states;
                proof {
                    assert(self.states@ == old_states.update(i as int, s));
                    assert(self.entries() == old_entries.insert(k, view_of(s)));
                    assert(self.entries().remove(k) =~= old_entries.remove(k));
                    assert(self.entry(k) == next_entry(old_entries_entry(old_entries, k), reason.category, reason.description@, self.max_attempts as nat, 0));
                }
                (true, false, Some(attempt))
            },
            None => {
                proof {
                    assert(self.entry(k) is None);
                }
                let now = utc_now_millis();
                let ghost old_states = self.states@;
                let s = if self.max_attempts == 0 {
                    RetryState::Exhausted {
                        topic: String::from_str(topic),
                        partition,
                        offset,
                        last_failure: reason.clone(),
                        first_failure_ms: now,
                    }
                } else {
                    RetryState::Retrying {
                        topic: String::from_str(topic),
                        partition,
                        offset,
                        attempt: 1,
                        last_failure: reason.clone(),
                        first_failure_ms: now,
                    }
                };
                proof {
                    lemma_entries_update(old_states, old_states.len() as int, s);
                }
                let mut states: Vec<RetryState> = Vec::new();
                    std::mem::swap(&mut states, &mut self.states);
                    states.push(s);
                    self.states = states;
                proof {
                    assert(self.states@ == old_states.push(s));
                    assert(self.entries() == old_entries.insert(k, view_of(s)));
                    assert(self.entries().remove(k) =~= old_entries.remove(k));
                    assert(self.entry(k) == next_entry(old_entries_entry(old_entries, k), reason.category, reason.description@, self.max_attempts as nat, now));
                }
                if self.max_attempts == 0 {
                    (false, true, None)
                } else {
                    (true, false, Some(0))
                }
            },
        }
    }

    /// Records a successful attempt: the message is no longer tracked.
    pub fn record_success(&mut self, topic: &str, partition: i32, offset: i64)
        ensures
            final(self).entries() == old(self).entries().remove((topic@, partition, offset)),
            final(self).spec_max_attempts() == old(self).spec_max_attempts(),
    {
        proof {
            use_type_invariant(&*self);
        }
        let ghost k = (topic@, partition, offset);
        match self.find(topic, partition, offset) {
            Some(i) => {
                let ghost old_states = self.states@;
                proof {
                    lemma_entries_remove(old_states, i as int);
                }
                let mut states: Vec<RetryState> = Vec::new();
                    std::mem::swap(&mut states, &mut self.states);
                    states.remove(i);
                    self.states = states;
            },
            None => {
                assert(self.entries() =~= self.entries().remove(k));
            },
        }
    }

    /// The attempt count of a message: its failures so far while retrying,
    /// 0 once exhausted or when untracked.
    pub fn attempt_count(&self, topic: &str, partition: i32, offset: i64) -> (r: usize)
        ensures
            r == match self.entry((topic@, partition, offset)) {
                Some(e) => e.attempt,
                None => 0,
            },
    {
        match self.find(topic, partition, offset) {
            Some(i) => self.states[i].attempt(),
            None => 0,
        }
    }
}

spec fn old_entries_entry(m: Map<MessageKey, RetryView>, k: MessageKey) -> Option<RetryView> {
    if m.dom().contains(k) {
        Some(m[k])
    } else {
        None
    }
}

} // verus!
