//! Settling a message once its handler has run: the retry bookkeeping it
//! triggers and the acknowledgements, failure marks and dead-letter
//! productions the worker then performs, in order.

use vstd::prelude::*;
use crate::execution::{BatchExecutionResult, ExecutionResult};
use crate::message::OwnedMessage;
use crate::failure::{handler_panic_description, FailureCategory, FailureReason};
use crate::retry::{failure_outcome, next_entry, MessageKey, RetryCoordinator, RetryView};

verus! {

/// A side effect a worker performs after settling a message.
#[derive(Debug)]
pub enum SettleEffect {
    /// Release one in-flight slot of the topic's queue.
    ReleaseSlot,
    /// Acknowledge the offset to the offset coordinator.
    CommitOffset { offset: i64 },
    /// Record the offset as failed with the offset coordinator.
    MarkFailed { offset: i64, reason: FailureReason },
    /// Produce the message to the dead-letter queue, with the attempt count
    /// recorded for it.
    DeadLetter { offset: i64, reason: FailureReason, attempt: usize },
}

/// A settle effect as values; a failure reason is its category and description.
pub enum EffectView {
    ReleaseSlot,
    CommitOffset(i64),
    MarkFailed(i64, FailureCategory, Seq<char>),
    DeadLetter(i64, FailureCategory, Seq<char>, nat),
}

pub open spec fn effect_view(e: SettleEffect) -> EffectView {
    match e {
        SettleEffect::ReleaseSlot => EffectView::ReleaseSlot,
        SettleEffect::CommitOffset { offset } => EffectView::CommitOffset(offset),
        SettleEffect::MarkFailed { offset, reason } => EffectView::MarkFailed(
            offset,
            reason.category,
            reason.description@,
        ),
        SettleEffect::DeadLetter { offset, reason, attempt } => EffectView::DeadLetter(
            offset,
            reason.category,
            reason.description@,
            attempt as nat,
        ),
    }
}

pub open spec fn effects_view(v: Seq<SettleEffect>) -> Seq<EffectView> {
    v.map_values(|e: SettleEffect| effect_view(e))
}

/// What happens to a message after a failed attempt.
#[derive(Debug, Clone, Copy, PartialEq, Eq, Structural)]
pub enum FailureSettlement {
    /// Run the message again; the index selects the backoff delay.
    Retry { backoff_index: usize },
    /// Send the message to the dead-letter queue with this attempt count.
    DeadLetter { attempt: usize },
    /// Acknowledge the message without retry or dead-lettering.
    Ack,
}

/// The attempt count a tracked entry reports: 0 when untracked or exhausted.
pub open spec fn attempt_of(e: Option<RetryView>) -> nat {
    match e {
        Some(v) => v.attempt,
        None => 0,
    }
}

/// The attempt count of a message right after a failure of this category is
/// recorded (it does not depend on the description or the clock).
pub open spec fn attempt_after_failure(
    old: Option<RetryView>,
    category: FailureCategory,
    max_attempts: nat,
) -> nat {
    attempt_of(next_entry(old, category, Seq::empty(), max_attempts, 0))
}

/// The settlement of a retry decision (retry, dead-letter, backoff index):
/// a granted retry with a backoff step is retried, otherwise a dead-letter
/// decision dead-letters, otherwise the message is acknowledged.
pub open spec fn settlement_of(outcome: (bool, bool, Option<usize>), attempt: nat) -> FailureSettlement {
    if outcome.0 && outcome.2 is Some {
        FailureSettlement::Retry { backoff_index: outcome.2->0 }
    } else if outcome.1 {
        FailureSettlement::DeadLetter { attempt: attempt as usize }
    } else {
        FailureSettlement::Ack
    }
}

/// The effects of a failure settlement: a dead-lettered message is produced
/// to the dead-letter queue and its slot released, an acknowledged one has
/// its slot released, and a retried one keeps its slot.
pub open spec fn failure_effects(
    offset: i64,
    category: FailureCategory,
    description: Seq<char>,
    s: FailureSettlement,
) -> Seq<EffectView> {
    match s {
        FailureSettlement::Retry { .. } => seq![],
        FailureSettlement::DeadLetter { attempt } => seq![
            EffectView::DeadLetter(offset, category, description, attempt as nat),
            EffectView::ReleaseSlot,
        ],
        FailureSettlement::Ack => seq![EffectView::ReleaseSlot],
    }
}

/// The category and description of the failure an execution result
/// reports; `None` for a success. A timeout is a terminal failure.
pub open spec fn result_failure(result: ExecutionResult) -> Option<(FailureCategory, Seq<char>)> {
    match result {
        ExecutionResult::Success => None,
        ExecutionResult::Error { reason, .. } => Some((reason.category, reason.description@)),
        ExecutionResult::Rejected { reason, .. } => Some((reason.category, reason.description@)),
        ExecutionResult::Timeout { .. } => Some((FailureCategory::Terminal, handler_panic_description())),
    }
}

proof fn lemma_attempt_after(
    old: Option<RetryView>,
    category: FailureCategory,
    description: Seq<char>,
    max_attempts: nat,
    now: i64,
)
    ensures
        attempt_of(next_entry(old, category, description, max_attempts, now))
            == attempt_after_failure(old, category, max_attempts),
{
}

/// Records a failed attempt of a message and decides what follows: a retry
/// (with the backoff step), dead-lettering (with the recorded attempt count)
/// or a plain acknowledgement.
pub fn settle_failure(
    coordinator: &mut RetryCoordinator,
    topic: &str,
    partition: i32,
    offset: i64,
    reason: &FailureReason,
) -> (r: FailureSettlement)
    ensures
        r == settlement_of(
            failure_outcome(
                old(coordinator).entry((topic@, partition, offset)),
                reason.category,
                old(coordinator).spec_max_attempts(),
            ),
            attempt_after_failure(
                old(coordinator).entry((topic@, partition, offset)),
                reason.category,
                old(coordinator).spec_max_attempts(),
            ),
        ),
        final(coordinator).spec_max_attempts() == old(coordinator).spec_max_attempts(),
        exists|now: i64| #![trigger next_entry(old(coordinator).entry((topic@, partition, offset)), reason.category, reason.description@, old(coordinator).spec_max_attempts(), now)]
            final(coordinator).entry((topic@, partition, offset)) == next_entry(
                old(coordinator).entry((topic@, partition, offset)),
                reason.category,
                reason.description@,
                old(coordinator).spec_max_attempts(),
                now,
            ),
        final(coordinator).entries().remove((topic@, partition, offset)) == old(
            coordinator,
        ).entries().remove((topic@, partition, offset)),
{
    let ghost k: MessageKey = (topic@, partition, offset);
    let ghost old_entry = coordinator.entry(k);
    let ghost max = coordinator.spec_max_attempts();
    let (should_retry, should_dlq, backoff) = coordinator.record_failure(
        topic,
        partition,
        offset,
        reason,
    );
    if should_retry {
        if let Some(i) = backoff {
            return FailureSettlement::Retry { backoff_index: i };
        }
    }
    if should_dlq {
        let attempt = coordinator.attempt_count(topic, partition, offset);
        proof {
            let now = choose|now: i64|
                coordinator.entry(k) == next_entry(
                    old_entry,
                    reason.category,
                    reason.description@,
                    max,
                    now,
                );
            lemma_attempt_after(old_entry, reason.category, reason.description@, max, now);
        }
        return FailureSettlement::DeadLetter { attempt };
    }
    FailureSettlement::Ack
}

/// Pushes the effects of a failure settlement.
fn push_failure_effects(
    effects: &mut Vec<SettleEffect>,
    offset: i64,
    reason: &FailureReason,
    s: FailureSettlement,
)
    ensures
        effects_view(final(effects)@) == effects_view(old(effects)@) + failure_effects(
            offset,
            reason.category,
            reason.description@,
            s,
        ),
{
    let ghost before = effects@;
    match s {
        FailureSettlement::Retry { .. } => {},
        FailureSettlement::DeadLetter { attempt } => {
            effects.push(SettleEffect::DeadLetter { offset, reason: reason.clone(), attempt });
            effects.push(SettleEffect::ReleaseSlot);
        },
        FailureSettlement::Ack => {
            effects.push(SettleEffect::ReleaseSlot);
        },
    }
    assert(effects_view(effects@) =~= effects_view(before) + failure_effects(
        offset,
        reason.category,
        reason.description@,
        s,
    ));
}

/// The settlement a worker reaches for a handler result: `None` for a
/// success, otherwise the settlement of the failure recorded with this
/// category against the entry before.
pub open spec fn settlement_for(
    old: Option<RetryView>,
    max_attempts: nat,
    category: FailureCategory,
) -> FailureSettlement {
    settlement_of(
        failure_outcome(old, category, max_attempts),
        attempt_after_failure(old, category, max_attempts),
    )
}

/// The effects of settling a single message's result, and the backoff step
/// when it is to be retried. A success releases the slot and commits the
/// offset; a failure marks the offset failed, then follows its settlement.
pub open spec fn result_effects(
    old: Option<RetryView>,
    max_attempts: nat,
    offset: i64,
    result: ExecutionResult,
) -> (Seq<EffectView>, Option<usize>) {
    match result_failure(result) {
        None => (seq![EffectView::ReleaseSlot, EffectView::CommitOffset(offset)], None),
        Some((c, d)) => {
            let s = settlement_for(old, max_attempts, c);
            (
                seq![EffectView::MarkFailed(offset, c, d)] + failure_effects(offset, c, d, s),
                match s {
                    FailureSettlement::Retry { backoff_index } => Some(backoff_index),
                    _ => None,
                },
            )
        },
    }
}

/// Settles the result of running a handler on one message: updates the
/// retry bookkeeping and answers the effects to perform, in order, and the
/// backoff step when the message is to be retried.
pub fn settle_result(
    coordinator: &mut RetryCoordinator,
    topic: &str,
    partition: i32,
    offset: i64,
    result: &ExecutionResult,
) -> (r: (Vec<SettleEffect>, Option<usize>))
    ensures
        (effects_view(r.0@), r.1) == result_effects(
            old(coordinator).entry((topic@, partition, offset)),
            old(coordinator).spec_max_attempts(),
            offset,
            *result,
        ),
        final(coordinator).spec_max_attempts() == old(coordinator).spec_max_attempts(),
        result is Success ==> final(coordinator).entries() == old(coordinator).entries().remove(
            (topic@, partition, offset),
        ),
        !(result is Success) ==> final(coordinator).entries().remove((topic@, partition, offset))
            == old(coordinator).entries().remove((topic@, partition, offset)),
{
    let mut effects: Vec<SettleEffect> = Vec::new();
    match result {
        ExecutionResult::Success => {
            coordinator.record_success(topic, partition, offset);
            effects.push(SettleEffect::ReleaseSlot);
            effects.push(SettleEffect::CommitOffset { offset });
            assert(effects_view(effects@) =~= seq![
                EffectView::ReleaseSlot,
                EffectView::CommitOffset(offset),
            ]);
            (effects, None)
        },
        _ => {
            let reason = match result {
                ExecutionResult::Error { reason, .. } => reason.clone(),
                ExecutionResult::Rejected { reason, .. } => reason.clone(),
                _ => FailureReason::handler_panic(),
            };
            assert(result_failure(*result) == Some((reason.category, reason.description@)));
            effects.push(SettleEffect::MarkFailed { offset, reason: reason.clone() });
            assert(effects_view(effects@) =~= seq![
                EffectView::MarkFailed(offset, reason.category, reason.description@),
            ]);
            let s = settle_failure(coordinator, topic, partition, offset, &reason);
            push_failure_effects(&mut effects, offset, &reason, s);
            let retry = match s {
                FailureSettlement::Retry { backoff_index } => Some(backoff_index),
                _ => None,
            };
            (effects, retry)
        },
    }
}

/// The effects of settling a fan-in message's result: as for a single
/// message, but the offset coordinator is not involved and a message granted
/// a retry is dropped (the broker redelivers it).
pub open spec fn fan_in_effects(
    old: Option<RetryView>,
    max_attempts: nat,
    offset: i64,
    result: ExecutionResult,
) -> Seq<EffectView> {
    match result_failure(result) {
        None => seq![EffectView::ReleaseSlot],
        Some((c, d)) => failure_effects(offset, c, d, settlement_for(old, max_attempts, c)),
    }
}

/// Settles the result of a fan-in handler on one message.
pub fn settle_fan_in_result(
    coordinator: &mut RetryCoordinator,
    topic: &str,
    partition: i32,
    offset: i64,
    result: &ExecutionResult,
) -> (r: Vec<SettleEffect>)
    ensures
        effects_view(r@) == fan_in_effects(
            old(coordinator).entry((topic@, partition, offset)),
            old(coordinator).spec_max_attempts(),
            offset,
            *result,
        ),
        final(coordinator).spec_max_attempts() == old(coordinator).spec_max_attempts(),
        result is Success ==> final(coordinator).entries() == old(coordinator).entries().remove(
            (topic@, partition, offset),
        ),
        !(result is Success) ==> final(coordinator).entries().remove((topic@, partition, offset))
            == old(coordinator).entries().remove((topic@, partition, offset)),
{
    let mut effects: Vec<SettleEffect> = Vec::new();
    match result {
        ExecutionResult::Success => {
            coordinator.record_success(topic, partition, offset);
            effects.push(SettleEffect::ReleaseSlot);
            assert(effects_view(effects@) =~= seq![EffectView::ReleaseSlot]);
            effects
        },
        _ => {
            let reason = match result {
                ExecutionResult::Error { reason, .. } => reason.clone(),
                ExecutionResult::Rejected { reason, .. } => reason.clone(),
                _ => FailureReason::handler_panic(),
            };
            assert(result_failure(*result) == Some((reason.category, reason.description@)));
            let s = settle_failure(coordinator, topic, partition, offset, &reason);
            assert(effects_view(effects@) =~= seq![]);
            push_failure_effects(&mut effects, offset, &reason, s);
            assert(effects_view(effects@) =~= fan_in_effects(
                old(coordinator).entry((topic@, partition, offset)),
                old(coordinator).spec_max_attempts(),
                offset,
                *result,
            ));
            effects
        },
    }
}

/// The tracked entry of a message in a map of entries.
pub open spec fn entry_in(m: Map<MessageKey, RetryView>, k: MessageKey) -> Option<RetryView> {
    if m.dom().contains(k) {
        Some(m[k])
    } else {
        None
    }
}

/// The retry progress of an entry: whether it is exhausted, and its attempt count.
pub open spec fn progress(e: Option<RetryView>) -> Option<(bool, nat)> {
    match e {
        Some(v) => Some((v.exhausted, v.attempt)),
        None => None,
    }
}

/// The retry progress of every tracked message.
pub open spec fn progress_map(m: Map<MessageKey, RetryView>) -> Map<MessageKey, (bool, nat)> {
    Map::new(|k: MessageKey| m.dom().contains(k), |k: MessageKey| (m[k].exhausted, m[k].attempt))
}

/// An entry with this progress (its other fields carry no weight in the
/// decisions on it).
pub open spec fn progress_entry(pm: Map<MessageKey, (bool, nat)>, k: MessageKey) -> Option<RetryView> {
    if pm.dom().contains(k) {
        Some(
            RetryView {
                exhausted: pm[k].0,
                attempt: pm[k].1,
                last_category: FailureCategory::Retryable,
                last_description: Seq::empty(),
                first_failure_ms: 0,
            },
        )
    } else {
        None
    }
}

/// The retry progress after a failure of this category is recorded for `k`.
pub open spec fn fail_progress(
    pm: Map<MessageKey, (bool, nat)>,
    k: MessageKey,
    category: FailureCategory,
    max_attempts: nat,
) -> Map<MessageKey, (bool, nat)> {
    match next_entry(progress_entry(pm, k), category, Seq::empty(), max_attempts, 0) {
        Some(v) => pm.insert(k, (v.exhausted, v.attempt)),
        None => pm,
    }
}

/// The attempt counts recorded when a failure of this category is recorded
/// for each key in turn.
pub open spec fn batch_failure_attempts(
    pm: Map<MessageKey, (bool, nat)>,
    keys: Seq<MessageKey>,
    category: FailureCategory,
    max_attempts: nat,
) -> Seq<nat>
    decreases keys.len(),
{
    if keys.len() == 0 {
        seq![]
    } else {
        seq![attempt_after_failure(progress_entry(pm, keys[0]), category, max_attempts)]
            + batch_failure_attempts(
            fail_progress(pm, keys[0], category, max_attempts),
            keys.drop_first(),
            category,
            max_attempts,
        )
    }
}

/// The keys of a batch's messages.
pub open spec fn batch_keys(topic: Seq<char>, partition: i32, offsets: Seq<i64>) -> Seq<MessageKey> {
    offsets.map_values(|o: i64| (topic, partition, o))
}

/// The offsets of a batch's messages, in batch order.
pub open spec fn batch_offsets(batch: Seq<OwnedMessage>) -> Seq<i64> {
    batch.map_values(|m: OwnedMessage| m.offset)
}

/// A failed batch: every message is marked failed, sent to the dead-letter
/// queue with its recorded attempt count, and has its slot released.
pub open spec fn batch_failure_effects(
    offsets: Seq<i64>,
    category: FailureCategory,
    description: Seq<char>,
    attempts: Seq<nat>,
) -> Seq<EffectView>
    decreases offsets.len(),
{
    if offsets.len() == 0 || attempts.len() == 0 {
        seq![]
    } else {
        batch_failure_effects(offsets.drop_last(), category, description, attempts.drop_last())
            + seq![
            EffectView::MarkFailed(offsets.last(), category, description),
            EffectView::DeadLetter(offsets.last(), category, description, attempts.last()),
            EffectView::ReleaseSlot,
        ]
    }
}

/// A successful batch: each offset has its slot released and is committed.
pub open spec fn batch_success_effects(offsets: Seq<i64>) -> Seq<EffectView>
    decreases offsets.len(),
{
    if offsets.len() == 0 {
        seq![]
    } else {
        batch_success_effects(offsets.drop_last()) + seq![
            EffectView::ReleaseSlot,
            EffectView::CommitOffset(offsets.last()),
        ]
    }
}

proof fn lemma_next_progress(
    a: Option<RetryView>,
    b: Option<RetryView>,
    category: FailureCategory,
    d1: Seq<char>,
    d2: Seq<char>,
    max_attempts: nat,
    n1: i64,
    n2: i64,
)
    requires
        progress(a) == progress(b),
    ensures
        progress(next_entry(a, category, d1, max_attempts, n1)) == progress(
            next_entry(b, category, d2, max_attempts, n2),
        ),
        attempt_after_failure(a, category, max_attempts) == attempt_after_failure(
            b,
            category,
            max_attempts,
        ),
{
}

proof fn lemma_progress_entry(m: Map<MessageKey, RetryView>, k: MessageKey)
    ensures
        progress(progress_entry(progress_map(m), k)) == progress(entry_in(m, k)),
{
}

/// Recording one failure moves the progress map by `fail_progress`.
proof fn lemma_fail_step(
    old_m: Map<MessageKey, RetryView>,
    new_m: Map<MessageKey, RetryView>,
    k: MessageKey,
    category: FailureCategory,
    description: Seq<char>,
    max_attempts: nat,
    now: i64,
)
    requires
        new_m.remove(k) == old_m.remove(k),
        entry_in(new_m, k) == next_entry(entry_in(old_m, k), category, description, max_attempts, now),
    ensures
        progress_map(new_m) == fail_progress(progress_map(old_m), k, category, max_attempts),
{
    let pm = progress_map(old_m);
    lemma_progress_entry(old_m, k);
    lemma_next_progress(
        entry_in(old_m, k),
        progress_entry(pm, k),
        category,
        description,
        Seq::empty(),
        max_attempts,
        now,
        0,
    );
    let target = fail_progress(pm, k, category, max_attempts);
    assert forall|k2: MessageKey| #![trigger target.dom().contains(k2)]
        progress_map(new_m).dom().contains(k2) == target.dom().contains(k2) && (target.dom().contains(k2)
            ==> progress_map(new_m)[k2] == target[k2]) by {
        if k2 != k {
            assert(old_m.remove(k).dom().contains(k2) == old_m.dom().contains(k2));
            assert(new_m.remove(k).dom().contains(k2) == new_m.dom().contains(k2));
            if old_m.dom().contains(k2) {
                assert(old_m.remove(k)[k2] == old_m[k2]);
                assert(new_m.remove(k)[k2] == new_m[k2]);
            }
        }
    }
    assert(progress_map(new_m) =~= target);
}

proof fn lemma_batch_failure_effects_push(
    offsets: Seq<i64>,
    category: FailureCategory,
    description: Seq<char>,
    attempts: Seq<nat>,
    o: i64,
    a: nat,
)
    requires
        offsets.len() == attempts.len(),
    ensures
        batch_failure_effects(offsets.push(o), category, description, attempts.push(a))
            == batch_failure_effects(offsets, category, description, attempts) + seq![
            EffectView::MarkFailed(o, category, description),
            EffectView::DeadLetter(o, category, description, a),
            EffectView::ReleaseSlot,
        ],
{
    assert(offsets.push(o).drop_last() =~= offsets);
    assert(attempts.push(a).drop_last() =~= attempts);
}

proof fn lemma_batch_success_effects_push(offsets: Seq<i64>, o: i64)
    ensures
        batch_success_effects(offsets.push(o)) == batch_success_effects(offsets) + seq![
            EffectView::ReleaseSlot,
            EffectView::CommitOffset(o),
        ],
{
    assert(offsets.push(o).drop_last() =~= offsets);
}

/// Settles the result of a batch handler on a batch of one topic partition.
///
/// A successful batch stops tracking every listed offset and releases and
/// commits each in turn. A failed batch records the failure for every message
/// and, since batch mode never retries inline, sends each one to the
/// dead-letter queue, whether or not a retry was granted.
pub fn settle_batch(
    coordinator: &mut RetryCoordinator,
    topic: &str,
    partition: i32,
    result: &BatchExecutionResult,
    batch: &[OwnedMessage],
) -> (r: Vec<SettleEffect>)
    ensures
        final(coordinator).spec_max_attempts() == old(coordinator).spec_max_attempts(),
        match *result {
            BatchExecutionResult::AllSuccess(offsets) => {
                &&& effects_view(r@) == batch_success_effects(offsets@)
                &&& final(coordinator).entries() == old(coordinator).entries().remove_keys(
                    batch_keys(topic@, partition, offsets@).to_set(),
                )
            },
            BatchExecutionResult::AllFailure(reason) => {
                &&& effects_view(r@) == batch_failure_effects(
                    batch_offsets(batch@),
                    reason.category,
                    reason.description@,
                    batch_failure_attempts(
                        progress_map(old(coordinator).entries()),
                        batch_keys(topic@, partition, batch_offsets(batch@)),
                        reason.category,
                        old(coordinator).spec_max_attempts(),
                    ),
                )
                &&& progress_map(final(coordinator).entries()).remove_keys(
                    batch_keys(topic@, partition, batch_offsets(batch@)).to_set(),
                ) == progress_map(old(coordinator).entries()).remove_keys(
                    batch_keys(topic@, partition, batch_offsets(batch@)).to_set(),
                )
            },
        },
{
    let mut effects: Vec<SettleEffect> = Vec::new();
    let ghost old_entries = coordinator.entries();
    let ghost max = coordinator.spec_max_attempts();
    match result {
        BatchExecutionResult::AllSuccess(offsets) => {
            proof {
                assert(offsets@.subrange(0, 0) =~= Seq::<i64>::empty());
                assert(batch_keys(topic@, partition, Seq::<i64>::empty()).to_set() =~= Set::<MessageKey>::empty());
                assert(old_entries.remove_keys(Set::<MessageKey>::empty()) =~= old_entries);
            }
            let mut i: usize = 0;
            while i < offsets.len()
                invariant
                    i <= offsets@.len(),
                    coordinator.spec_max_attempts() == max,
                    coordinator.entries() == old_entries.remove_keys(
                        batch_keys(topic@, partition, offsets@.subrange(0, i as int)).to_set(),
                    ),
                    effects_view(effects@) == batch_success_effects(offsets@.subrange(0, i as int)),
                decreases offsets.len() - i,
            {
                let o = offsets[i];
                let ghost before = coordinator.entries();
                coordinator.record_success(topic, partition, o);
                let ghost ev = effects@;
                effects.push(SettleEffect::ReleaseSlot);
                effects.push(SettleEffect::CommitOffset { offset: o });
                proof {
                    let prev = offsets@.subrange(0, i as int);
                    let next = offsets@.subrange(0, i + 1);
                    assert(next =~= prev.push(o));
                    lemma_batch_success_effects_push(prev, o);
                    assert(effects_view(effects@) =~= effects_view(ev) + seq![
                        EffectView::ReleaseSlot,
                        EffectView::CommitOffset(o),
                    ]);
                    let s_prev = batch_keys(topic@, partition, prev).to_set();
                    let s_next = batch_keys(topic@, partition, next).to_set();
                    assert(batch_keys(topic@, partition, next) =~= batch_keys(topic@, partition, prev).push(
                        (topic@, partition, o),
                    ));
                    assert(s_next =~= s_prev.insert((topic@, partition, o))) by {
                        assert forall|k: MessageKey| s_next.contains(k) == s_prev.insert(
                            (topic@, partition, o),
                        ).contains(k) by {
                            if s_next.contains(k) {
                                let j = choose|j: int|
                                    0 <= j < batch_keys(topic@, partition, next).len()
                                        && batch_keys(topic@, partition, next)[j] == k;
                                if j < prev.len() {
                                    assert(batch_keys(topic@, partition, prev)[j] == k);
                                }
                            }
                            if s_prev.contains(k) {
                                let j = choose|j: int|
                                    0 <= j < batch_keys(topic@, partition, prev).len()
                                        && batch_keys(topic@, partition, prev)[j] == k;
                                assert(batch_keys(topic@, partition, next)[j] == k);
                            }
                            if k == (topic@, partition, o) {
                                assert(batch_keys(topic@, partition, next)[i as int] == k);
                            }
                        }
                    }
                    assert(coordinator.entries() =~= old_entries.remove_keys(s_next));
                }
                i += 1;
            }
            proof {
                assert(offsets@.subrange(0, offsets@.len() as int) =~= offsets@);
            }
            effects
        },
        BatchExecutionResult::AllFailure(reason) => {
            let ghost keys = batch_keys(topic@, partition, batch_offsets(batch@));
            let ghost total = batch_failure_attempts(
                progress_map(old_entries),
                keys,
                reason.category,
                max,
            );
            let ghost mut done: Seq<nat> = seq![];
            proof {
                assert(keys.subrange(0, keys.len() as int) =~= keys);
                assert(done + total =~= total);
                assert(batch_offsets(batch@).subrange(0, 0) =~= Seq::<i64>::empty());
            }
            let mut i: usize = 0;
            while i < batch.len()
                invariant
                    i <= batch@.len(),
                    keys == batch_keys(topic@, partition, batch_offsets(batch@)),
                    total == batch_failure_attempts(progress_map(old_entries), keys, reason.category, max),
                    coordinator.spec_max_attempts() == max,
                    done.len() == i,
                    total == done + batch_failure_attempts(
                        progress_map(coordinator.entries()),
                        keys.subrange(i as int, keys.len() as int),
                        reason.category,
                        max,
                    ),
                    effects_view(effects@) == batch_failure_effects(
                        batch_offsets(batch@).subrange(0, i as int),
                        reason.category,
                        reason.description@,
                        done,
                    ),
                    progress_map(coordinator.entries()).remove_keys(keys.to_set())
                        == progress_map(old_entries).remove_keys(keys.to_set()),
                decreases batch.len() - i,
            {
                let o = batch[i].offset;
                let ghost k: MessageKey = (topic@, partition, o);
                let ghost before = coordinator.entries();
                let ghost rest = keys.subrange(i as int, keys.len() as int);
                proof {
                    assert(rest[0] == k);
                    assert(rest.drop_first() =~= keys.subrange(i + 1, keys.len() as int));
                }
                let _ = coordinator.record_failure(topic, partition, o, reason);
                let attempt = coordinator.attempt_count(topic, partition, o);
                proof {
                    let now = choose|now: i64|
                        coordinator.entry(k) == next_entry(
                            entry_in(before, k),
                            reason.category,
                            reason.description@,
                            max,
                            now,
                        );
                    lemma_fail_step(before, coordinator.entries(), k, reason.category, reason.description@, max, now);
                    lemma_progress_entry(before, k);
                    lemma_next_progress(
                        entry_in(before, k),
                        progress_entry(progress_map(before), k),
                        reason.category,
                        reason.description@,
                        Seq::empty(),
                        max,
                        now,
                        0,
                    );
                    lemma_attempt_after(entry_in(before, k), reason.category, reason.description@, max, now);
                    assert(attempt == attempt_after_failure(progress_entry(progress_map(before), k), reason.category, max));
                }
                let ghost ev = effects@;
                effects.push(SettleEffect::MarkFailed { offset: o, reason: reason.clone() });
                effects.push(SettleEffect::DeadLetter { offset: o, reason: reason.clone(), attempt });
                effects.push(SettleEffect::ReleaseSlot);
                proof {
                    let prev = batch_offsets(batch@).subrange(0, i as int);
                    assert(batch_offsets(batch@).subrange(0, i + 1) =~= prev.push(o));
                    lemma_batch_failure_effects_push(prev, reason.category, reason.description@, done, o, attempt as nat);
                    assert(effects_view(effects@) =~= effects_view(ev) + seq![
                        EffectView::MarkFailed(o, reason.category, reason.description@),
                        EffectView::DeadLetter(o, reason.category, reason.description@, attempt as nat),
                        EffectView::ReleaseSlot,
                    ]);
                    assert(total =~= done.push(attempt as nat) + batch_failure_attempts(
                        progress_map(coordinator.entries()),
                        keys.subrange(i + 1, keys.len() as int),
                        reason.category,
                        max,
                    ));
                    assert(keys.to_set().contains(k)) by {
                        assert(keys[i as int] == k);
                    }
                    let ks = keys.to_set();
                    assert(progress_map(coordinator.entries()).remove_keys(ks) =~= progress_map(before).remove_keys(ks)) by {
                        let a = progress_map(coordinator.entries());
                        let b = progress_map(before);
                        let fp = fail_progress(b, k, reason.category, max);
                        assert(a == fp);
                        assert forall|k2: MessageKey| #![trigger a.remove_keys(ks).dom().contains(k2)]
                            a.remove_keys(ks).dom().contains(k2) == b.remove_keys(ks).dom().contains(k2)
                            && (a.remove_keys(ks).dom().contains(k2) ==> a.remove_keys(ks)[k2] == b.remove_keys(ks)[k2]) by {
                            if !ks.contains(k2) {
                                assert(k2 != k);
                            }
                        }
                    }
                    done = done.push(attempt as nat);
                }
                i += 1;
            }
            proof {
                assert(batch_offsets(batch@).subrange(0, batch@.len() as int) =~= batch_offsets(batch@));
                assert(keys.subrange(batch@.len() as int, keys.len() as int) =~= Seq::<MessageKey>::empty());
                assert(done =~= total);
            }
            effects
        },
    }
}

/// The number of slot releases among effects.
pub open spec fn release_count(effects: Seq<EffectView>) -> nat
    decreases effects.len(),
{
    if effects.len() == 0 {
        0
    } else {
        release_count(effects.drop_last()) + if effects.last() is ReleaseSlot {
            1nat
        } else {
            0nat
        }
    }
}

/// Queue slots do not leak: settling a message releases its slot exactly
/// once, unless it is to be retried, when it keeps the slot; and only a
/// failed message is ever dead-lettered.
pub proof fn law_settlement_releases_slot_once(
    old: Option<RetryView>,
    max_attempts: nat,
    offset: i64,
    result: ExecutionResult,
)
    ensures
        release_count(result_effects(old, max_attempts, offset, result).0) == if result_effects(
            old,
            max_attempts,
            offset,
            result,
        ).1 is Some {
            0nat
        } else {
            1nat
        },
        result is Success ==> result_effects(old, max_attempts, offset, result).0 == seq![
            EffectView::ReleaseSlot,
            EffectView::CommitOffset(offset),
        ],
{
    let (effects, retry) = result_effects(old, max_attempts, offset, result);
    reveal_with_fuel(release_count, 4);
    match result_failure(result) {
        None => {
            assert(effects.drop_last() =~= seq![EffectView::ReleaseSlot]);
            assert(effects.drop_last().drop_last() =~= Seq::<EffectView>::empty());
        },
        Some((c, d)) => {
            let s = settlement_for(old, max_attempts, c);
            let head = seq![EffectView::MarkFailed(offset, c, d)];
            assert(head.drop_last() =~= Seq::<EffectView>::empty());
            match s {
                FailureSettlement::Retry { .. } => {
                    assert(effects =~= head);
                },
                FailureSettlement::DeadLetter { attempt } => {
                    assert(effects.drop_last() =~= head.push(
                        EffectView::DeadLetter(offset, c, d, attempt as nat),
                    ));
                    assert(effects.drop_last().drop_last() =~= head);
                },
                FailureSettlement::Ack => {
                    assert(effects.drop_last() =~= head);
                },
            }
        },
    }
}

} // verus!
