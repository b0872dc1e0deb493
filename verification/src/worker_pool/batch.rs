//! Batch accumulator of a batch handler: messages are buffered per partition,
//! keeping the order within each partition, and flushed as batches.

use vstd::prelude::*;
use crate::message::OwnedMessage;
use crate::time::utc_now_millis;
use crate::worker_pool::accumulator::{deadline_passed, window_end, PerPartitionBuffer};

verus! {

/// One partition's buffer as values: partition, messages, deadline.
pub type BufferView = (i32, Seq<OwnedMessage>, Option<i64>);

pub open spec fn buffer_view(e: (i32, PerPartitionBuffer)) -> BufferView {
    (e.0, e.1.spec_messages(), e.1.spec_deadline())
}

pub open spec fn distinct_partitions(s: Seq<(i32, PerPartitionBuffer)>) -> bool {
    forall|i: int, j: int| 0 <= i < j < s.len() ==> (#[trigger] s[i]).0 != (#[trigger] s[j]).0
}

/// Total number of buffered messages.
pub open spec fn total_messages(bufs: Seq<BufferView>) -> nat
    decreases bufs.len(),
{
    if bufs.len() == 0 {
        0
    } else {
        total_messages(bufs.drop_last()) + bufs.last().1.len()
    }
}

/// The non-empty buffers as (partition, messages), in buffer order.
pub open spec fn nonempty_batches(bufs: Seq<BufferView>) -> Seq<(i32, Seq<OwnedMessage>)>
    decreases bufs.len(),
{
    if bufs.len() == 0 {
        seq![]
    } else {
        let rest = nonempty_batches(bufs.drop_last());
        if bufs.last().1.len() > 0 {
            rest.push((bufs.last().0, bufs.last().1))
        } else {
            rest
        }
    }
}

/// Whether some non-empty buffer's deadline has passed at `now_ms`.
pub open spec fn any_deadline_passed(bufs: Seq<BufferView>, now_ms: i64) -> bool {
    exists|i: int| 0 <= i < bufs.len() && (#[trigger] bufs[i]).1.len() > 0 && deadline_passed(bufs[i].2, now_ms)
}

/// One partition's buffer without its deadline: partition and messages.
pub type PartitionMessages = (i32, Seq<OwnedMessage>);

/// The buffers without their deadlines.
pub open spec fn message_view(bufs: Seq<BufferView>) -> Seq<PartitionMessages> {
    bufs.map_values(|b: BufferView| (b.0, b.1))
}

/// Whether no partition has two buffers.
pub open spec fn distinct_buffers(bufs: Seq<BufferView>) -> bool {
    forall|i: int, j: int| 0 <= i < j < bufs.len() ==> (#[trigger] bufs[i]).0 != (#[trigger] bufs[j]).0
}

/// `after` is `before` with `msg` appended to its partition's buffer, which
/// is created at the end when the partition has none; a buffer that was
/// empty starts its window at `now_ms`.
pub open spec fn added(before: Seq<BufferView>, after: Seq<BufferView>, msg: OwnedMessage, now_ms: i64, max_wait_ms: u64) -> bool {
    if exists|i: int| 0 <= i < before.len() && (#[trigger] before[i]).0 == msg.partition {
        exists|i: int|
            0 <= i < before.len() && (#[trigger] before[i]).0 == msg.partition && after == before.update(
                i,
                (
                    msg.partition,
                    before[i].1.push(msg),
                    if before[i].1.len() == 0 {
                        Some(window_end(now_ms, max_wait_ms))
                    } else {
                        before[i].2
                    },
                ),
            )
    } else {
        after == before.push((msg.partition, seq![msg], Some(window_end(now_ms, max_wait_ms))))
    }
}

/// Accumulates messages per partition for a batch handler.
#[derive(Debug)]
pub struct BatchAccumulator {
    partitions: Vec<(i32, PerPartitionBuffer)>,
    max_batch_size: usize,
    max_batch_wait_ms: u64,
}

impl BatchAccumulator {
    #[verifier::type_invariant]
    spec fn inv(&self) -> bool {
        distinct_partitions(self.partitions@)
    }

    /// The per-partition buffers, in the order partitions first appeared.
    pub closed spec fn buffers(&self) -> Seq<BufferView> {
        self.partitions@.map_values(|e: (i32, PerPartitionBuffer)| buffer_view(e))
    }

    pub closed spec fn spec_max_batch_size(&self) -> usize {
        self.max_batch_size
    }

    pub closed spec fn spec_max_batch_wait_ms(&self) -> u64 {
        self.max_batch_wait_ms
    }

    /// An empty accumulator with the given batch limits.
    pub fn new(max_batch_size: usize, max_batch_wait_ms: u64) -> (r: Self)
        ensures
            r.buffers().len() == 0,
            r.spec_max_batch_size() == max_batch_size,
            r.spec_max_batch_wait_ms() == max_batch_wait_ms,
    {
        let r = BatchAccumulator { partitions: Vec::new(), max_batch_size, max_batch_wait_ms };
        assert(r.buffers() =~= Seq::<BufferView>::empty());
        r
    }

    fn position(&self, partition: i32) -> (r: Option<usize>)
        ensures
            match r {
                Some(i) => i < self.buffers().len() && self.buffers()[i as int].0 == partition,
                None => forall|j: int|
                    0 <= j < self.buffers().len() ==> (#[trigger] self.buffers()[j]).0 != partition,
            },
    {
        let mut i: usize = 0;
        while i < self.partitions.len()
            invariant
                i <= self.partitions@.len(),
                forall|j: int| 0 <= j < i ==> (#[trigger] self.partitions@[j]).0 != partition,
            decreases self.partitions.len() - i,
        {
            if self.partitions[i].0 == partition {
                return Some(i);
            }
            i += 1;
        }
        None
    }

    /// Whether the partition's buffer already holds a full batch.
    pub fn would_fill_partition(&self, partition: i32) -> (r: bool)
        ensures
            distinct_buffers(self.buffers()),
            r == exists|i: int|
                0 <= i < self.buffers().len() && (#[trigger] self.buffers()[i]).0 == partition
                    && self.buffers()[i].1.len() >= self.spec_max_batch_size(),
    {
        proof {
            use_type_invariant(self);
            assert forall|a: int, b: int| 0 <= a < b < self.buffers().len() implies (#[trigger] self.buffers()[a]).0
                != (#[trigger] self.buffers()[b]).0 by {
                assert(self.buffers()[a].0 == self.partitions@[a].0);
                assert(self.buffers()[b].0 == self.partitions@[b].0);
            }
        }
        match self.position(partition) {
            Some(i) => {
                let r = self.partitions[i].1.len() >= self.max_batch_size;
                proof {
                    assert forall|j: int|
                        0 <= j < self.buffers().len() && (#[trigger] self.buffers()[j]).0
                            == partition implies j == i by {
                        if j != i {
                            assert(self.partitions@[j].0 == self.buffers()[j].0);
                        }
                    }
                }
                r
            },
            None => false,
        }
    }

    /// Adds a message that arrived at `now_ms` to its partition's buffer,
    /// starting that partition's window if its buffer was empty.
    pub fn add_at(&mut self, msg: OwnedMessage, now_ms: i64)
        ensures
            final(self).spec_max_batch_size() == old(self).spec_max_batch_size(),
            final(self).spec_max_batch_wait_ms() == old(self).spec_max_batch_wait_ms(),
            added(old(self).buffers(), final(self).buffers(), msg, now_ms, old(self).spec_max_batch_wait_ms()),
    {
        proof {
            use_type_invariant(&*self);
        }
        let partition = msg.partition;
        let ghost m = msg;
        let ghost old_parts = self.partitions@;
        let ghost old_bufs = self.buffers();
        let mut parts: Vec<(i32, PerPartitionBuffer)> = Vec::new();
        match self.position(partition) {
            Some(i) => {
                std::mem::swap(&mut parts, &mut self.partitions);
                let mut entry = parts.remove(i);
                entry.1.add_at(msg, now_ms, self.max_batch_wait_ms);
                parts.insert(i, entry);
                proof {
                    assert(parts@ =~= old_parts.update(i as int, entry));
                    assert forall|a: int, b: int| 0 <= a < b < parts@.len() implies (#[trigger] parts@[a]).0
                        != (#[trigger] parts@[b]).0 by {
                        assert(old_parts[a].0 == parts@[a].0 && old_parts[b].0 == parts@[b].0);
                    }
                }
                self.partitions = parts;
                proof {
                    assert(self.buffers() =~= old_parts.map_values(
                        |e: (i32, PerPartitionBuffer)| buffer_view(e),
                    ).update(i as int, buffer_view(entry)));
                }
            },
            None => {
                let mut buf = PerPartitionBuffer::new();
                buf.add_at(msg, now_ms, self.max_batch_wait_ms);
                std::mem::swap(&mut parts, &mut self.partitions);
                parts.push((partition, buf));
                proof {
                    assert forall|a: int, b: int| 0 <= a < b < parts@.len() implies (#[trigger] parts@[a]).0
                        != (#[trigger] parts@[b]).0 by {
                        if b < old_parts.len() {
                            assert(parts@[a] == old_parts[a] && parts@[b] == old_parts[b]);
                        } else {
                            assert(parts@[a] == old_parts[a]);
                            assert(old_bufs[a].0 == old_parts[a].0);
                            assert(old_bufs[a].0 != partition);
                        }
                    }
                }
                self.partitions = parts;
                proof {
                    assert(self.buffers() =~= old_parts.map_values(
                        |e: (i32, PerPartitionBuffer)| buffer_view(e),
                    ).push(buffer_view((partition, buf))));
                    assert(buf.spec_messages() =~= seq![m]);
                }
            },
        }
    }

    /// Adds a message that arrives now.
    pub fn add(&mut self, msg: OwnedMessage)
        ensures
            final(self).spec_max_batch_size() == old(self).spec_max_batch_size(),
            final(self).spec_max_batch_wait_ms() == old(self).spec_max_batch_wait_ms(),
            exists|now_ms: i64| added(old(self).buffers(), final(self).buffers(), msg, now_ms, old(self).spec_max_batch_wait_ms()),
            total_messages(final(self).buffers()) == total_messages(old(self).buffers()) + 1,
    {
        let now = utc_now_millis();
        let ghost old_bufs = self.buffers();
        let ghost m = msg;
        self.add_at(msg, now);
        proof {
            if exists|i: int| 0 <= i < old_bufs.len() && (#[trigger] old_bufs[i]).0 == m.partition {
                let i = choose|i: int|
                    0 <= i < old_bufs.len() && (#[trigger] old_bufs[i]).0 == m.partition && self.buffers()
                        == old_bufs.update(
                        i,
                        (
                            m.partition,
                            old_bufs[i].1.push(m),
                            if old_bufs[i].1.len() == 0 {
                                Some(window_end(now, self.spec_max_batch_wait_ms()))
                            } else {
                                old_bufs[i].2
                            },
                        ),
                    );
                lemma_total_update(old_bufs, i, self.buffers()[i]);
            } else {
                assert(self.buffers().drop_last() =~= old_bufs);
            }
            assert(added(old_bufs, self.buffers(), m, now, self.spec_max_batch_wait_ms()));
        }
    }

    /// The earliest deadline among the buffers, if any buffer has one.
    pub fn next_deadline(&self) -> (r: Option<i64>)
        ensures
            match r {
                None => forall|i: int|
                    0 <= i < self.buffers().len() ==> (#[trigger] self.buffers()[i]).2 is None,
                Some(d) => (exists|i: int|
                    0 <= i < self.buffers().len() && (#[trigger] self.buffers()[i]).2 == Some(d))
                    && forall|i: int|
                    0 <= i < self.buffers().len() ==> match (#[trigger] self.buffers()[i]).2 {
                        Some(e) => d <= e,
                        None => true,
                    },
            },
    {
        let mut best: Option<i64> = None;
        let mut i: usize = 0;
        while i < self.partitions.len()
            invariant
                i <= self.partitions@.len(),
                match best {
                    None => forall|j: int| 0 <= j < i ==> (#[trigger] self.buffers()[j]).2 is None,
                    Some(d) => (exists|j: int| 0 <= j < i && (#[trigger] self.buffers()[j]).2 == Some(d))
                        && forall|j: int|
                        0 <= j < i ==> match (#[trigger] self.buffers()[j]).2 {
                            Some(e) => d <= e,
                            None => true,
                        },
                },
            decreases self.partitions.len() - i,
        {
            let dl = self.partitions[i].1.deadline();
            assert(self.buffers()[i as int].2 == dl);
            match dl {
                Some(e) => {
                    match best {
                        Some(d) => {
                            if e < d {
                                best = Some(e);
                            }
                        },
                        None => {
                            best = Some(e);
                        },
                    }
                },
                None => {},
            }
            i += 1;
        }
        best
    }

    /// Whether some non-empty buffer's deadline has passed at `now_ms`.
    pub fn is_any_deadline_expired_at(&self, now_ms: i64) -> (r: bool)
        ensures
            r == any_deadline_passed(self.buffers(), now_ms),
    {
        let mut i: usize = 0;
        while i < self.partitions.len()
            invariant
                i <= self.partitions@.len(),
                forall|j: int|
                    0 <= j < i ==> !((#[trigger] self.buffers()[j]).1.len() > 0 && deadline_passed(
                        self.buffers()[j].2,
                        now_ms,
                    )),
            decreases self.partitions.len() - i,
        {
            let buf = &self.partitions[i].1;
            assert(self.buffers()[i as int].1 == buf.spec_messages());
            if !buf.is_empty() && buf.is_deadline_expired_at(now_ms) {
                return true;
            }
            i += 1;
        }
        false
    }

    /// Whether some non-empty buffer's deadline has passed now.
    pub fn is_any_deadline_expired(&self) -> (r: bool)
        ensures
            r ==> exists|i: int|
                0 <= i < self.buffers().len() && (#[trigger] self.buffers()[i]).1.len() > 0,
            exists|now_ms: i64| r == #[trigger] any_deadline_passed(self.buffers(), now_ms),
    {
        let now = utc_now_millis();
        self.is_any_deadline_expired_at(now)
    }

    /// Whether no message is buffered.
    pub fn is_empty(&self) -> (r: bool)
        ensures
            r == forall|i: int| 0 <= i < self.buffers().len() ==> (#[trigger] self.buffers()[i]).1.len() == 0,
    {
        let mut i: usize = 0;
        while i < self.partitions.len()
            invariant
                i <= self.partitions@.len(),
                forall|j: int| 0 <= j < i ==> (#[trigger] self.buffers()[j]).1.len() == 0,
            decreases self.partitions.len() - i,
        {
            assert(self.buffers()[i as int].1 == self.partitions@[i as int].1.spec_messages());
            if !self.partitions[i].1.is_empty() {
                return false;
            }
            i += 1;
        }
        true
    }

    /// Takes every non-empty buffer's batch, as (partition, messages) in
    /// buffer order, leaving every buffer empty and without a deadline.
    pub fn flush_all(&mut self) -> (r: Vec<(i32, Vec<OwnedMessage>)>)
        ensures
            final(self).spec_max_batch_size() == old(self).spec_max_batch_size(),
            final(self).spec_max_batch_wait_ms() == old(self).spec_max_batch_wait_ms(),
            r@.len() == nonempty_batches(old(self).buffers()).len(),
            forall|i: int|
                0 <= i < r@.len() ==> (#[trigger] r@[i]).0 == nonempty_batches(old(self).buffers())[i].0
                    && r@[i].1@ == nonempty_batches(old(self).buffers())[i].1,
            final(self).buffers().len() == old(self).buffers().len(),
            forall|i: int|
                0 <= i < final(self).buffers().len() ==> (#[trigger] final(self).buffers()[i]).0 == old(
                    self,
                ).buffers()[i].0 && final(self).buffers()[i].1.len() == 0 && final(self).buffers()[i].2 is None,
    {
        proof {
            use_type_invariant(&*self);
        }
        let ghost old_bufs = self.buffers();
        let mut parts: Vec<(i32, PerPartitionBuffer)> = Vec::new();
        std::mem::swap(&mut parts, &mut self.partitions);
        let mut result: Vec<(i32, Vec<OwnedMessage>)> = Vec::new();
        let mut i: usize = 0;
        let ghost n = parts@.len();
        while i < parts.len()
            invariant
                n == parts@.len(),
                n == old_bufs.len(),
                i <= n,
                forall|j: int| i <= j < n ==> buffer_view(#[trigger] parts@[j]) == old_bufs[j],
                forall|j: int|
                    0 <= j < i ==> (#[trigger] parts@[j]).0 == old_bufs[j].0 && parts@[j].1.spec_messages().len()
                        == 0 && parts@[j].1.spec_deadline() is None,
                result@.len() == nonempty_batches(old_bufs.subrange(0, i as int)).len(),
                forall|j: int|
                    0 <= j < result@.len() ==> (#[trigger] result@[j]).0 == nonempty_batches(
                        old_bufs.subrange(0, i as int),
                    )[j].0 && result@[j].1@ == nonempty_batches(old_bufs.subrange(0, i as int))[j].1,
            decreases n - i,
        {
            let ghost before = parts@;
            let mut entry = parts.remove(i);
            let ghost ev = buffer_view(entry);
            proof {
                assert(before[i as int] == entry);
                assert(old_bufs.subrange(0, i + 1).drop_last() =~= old_bufs.subrange(0, i as int));
            }
            if !entry.1.is_empty() {
                let msgs = entry.1.take_messages();
                result.push((entry.0, msgs));
            } else {
                let _ = entry.1.take_messages();
            }
            parts.insert(i, entry);
            proof {
                assert forall|j: int| i < j < n implies buffer_view(#[trigger] parts@[j]) == old_bufs[j] by {
                    assert(parts@[j] == before[j]);
                }
                assert forall|j: int| 0 <= j < i implies (#[trigger] parts@[j]).0 == old_bufs[j].0 && parts@[j].1.spec_messages().len()
                        == 0 && parts@[j].1.spec_deadline() is None by {
                    assert(parts@[j] == before[j]);
                }
                assert(ev == old_bufs[i as int]);
            }
            i += 1;
        }
        proof {
            assert(old_bufs.subrange(0, n as int) =~= old_bufs);
            assert forall|a: int, b: int| 0 <= a < b < parts@.len() implies (#[trigger] parts@[a]).0
                != (#[trigger] parts@[b]).0 by {
                assert(parts@[a].0 == old_bufs[a].0 && parts@[b].0 == old_bufs[b].0);
            }
        }
        self.partitions = parts;
        result
    }

    /// Takes the batch of one partition, if it has buffered messages.
    pub fn flush_partition(&mut self, partition: i32) -> (r: Option<Vec<OwnedMessage>>)
        ensures
            final(self).spec_max_batch_size() == old(self).spec_max_batch_size(),
            final(self).spec_max_batch_wait_ms() == old(self).spec_max_batch_wait_ms(),
            match r {
                Some(msgs) => exists|i: int|
                    0 <= i < old(self).buffers().len() && (#[trigger] old(self).buffers()[i]).0
                        == partition && old(self).buffers()[i].1.len() > 0 && msgs@ == old(
                        self,
                    ).buffers()[i].1 && final(self).buffers() == old(self).buffers().update(
                        i,
                        (partition, Seq::<OwnedMessage>::empty(), None),
                    ),
                None => final(self).buffers() == old(self).buffers() && forall|i: int|
                    0 <= i < old(self).buffers().len() && (#[trigger] old(self).buffers()[i]).0
                        == partition ==> old(self).buffers()[i].1.len() == 0,
            },
    {
        proof {
            use_type_invariant(&*self);
        }
        let ghost old_parts = self.partitions@;
        match self.position(partition) {
            Some(i) => {
                if self.partitions[i].1.is_empty() {
                    proof {
                        assert forall|j: int|
                            0 <= j < self.buffers().len() && (#[trigger] self.buffers()[j]).0
                                == partition implies self.buffers()[j].1.len() == 0 by {
                            if j != i {
                                assert(self.partitions@[j].0 == self.buffers()[j].0);
                            }
                        }
                    }
                    return None;
                }
                let mut parts: Vec<(i32, PerPartitionBuffer)> = Vec::new();
                std::mem::swap(&mut parts, &mut self.partitions);
                let mut entry = parts.remove(i);
                let msgs = entry.1.take_messages();
                proof {
                    assert(entry.1.spec_messages() =~= Seq::<OwnedMessage>::empty());
                    assert(entry.0 == partition);
                }
                parts.insert(i, entry);
                proof {
                    assert(parts@ =~= old_parts.update(i as int, entry));
                    assert forall|a: int, b: int| 0 <= a < b < parts@.len() implies (#[trigger] parts@[a]).0
                        != (#[trigger] parts@[b]).0 by {
                        assert(old_parts[a].0 == parts@[a].0 && old_parts[b].0 == parts@[b].0);
                    }
                }
                self.partitions = parts;
                proof {
                    assert(self.buffers() =~= old_parts.map_values(
                        |e: (i32, PerPartitionBuffer)| buffer_view(e),
                    ).update(i as int, (partition, Seq::<OwnedMessage>::empty(), None)));
                }
                Some(msgs)
            },
            None => None,
        }
    }

    /// Total number of buffered messages (saturating at `usize::MAX`).
    pub fn total_len(&self) -> (r: usize)
        ensures
            r == if total_messages(self.buffers()) > usize::MAX {
                usize::MAX as nat
            } else {
                total_messages(self.buffers())
            },
    {
        let mut total: usize = 0;
        let mut i: usize = 0;
        while i < self.partitions.len()
            invariant
                i <= self.partitions@.len(),
                total == if total_messages(self.buffers().subrange(0, i as int)) > usize::MAX {
                    usize::MAX as nat
                } else {
                    total_messages(self.buffers().subrange(0, i as int))
                },
            decreases self.partitions.len() - i,
        {
            proof {
                assert(self.buffers().subrange(0, i + 1).drop_last() =~= self.buffers().subrange(0, i as int));
                assert(self.buffers()[i as int].1 == self.partitions@[i as int].1.spec_messages());
            }
            total = total.saturating_add(self.partitions[i].1.len());
            i += 1;
        }
        proof {
            assert(self.buffers().subrange(0, i as int) =~= self.buffers());
        }
        total
    }
}

proof fn lemma_total_update(bufs: Seq<BufferView>, i: int, v: BufferView)
    requires
        0 <= i < bufs.len(),
        v.1.len() == bufs[i].1.len() + 1,
    ensures
        total_messages(bufs.update(i, v)) == total_messages(bufs) + 1,
    decreases bufs.len(),
{
    let new = bufs.update(i, v);
    if i == bufs.len() - 1 {
        assert(new.drop_last() =~= bufs.drop_last());
    } else {
        lemma_total_update(bufs.drop_last(), i, v);
        assert(new.drop_last() =~= bufs.drop_last().update(i, v));
    }
}

} // verus!
