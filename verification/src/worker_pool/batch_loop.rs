//! The decision the batch worker loop makes when a message arrives: when
//! to flush everything under backpressure, when to flush a full partition
//! before and after adding the message.

use vstd::prelude::*;
use crate::message::OwnedMessage;
use crate::worker_pool::batch::{
    added, distinct_buffers, message_view, nonempty_batches, total_messages, BatchAccumulator, BufferView,
    PartitionMessages,
};
use crate::worker_pool::state::BatchState;

verus! {

/// A flushed batch as values: partition and messages.
pub type FlushedView = (i32, Seq<OwnedMessage>);

pub open spec fn flushed_view(v: Seq<(i32, Vec<OwnedMessage>)>) -> Seq<FlushedView> {
    v.map_values(|e: (i32, Vec<OwnedMessage>)| (e.0, e.1@))
}

/// The number of messages in flushed batches.
pub open spec fn flushed_total(f: Seq<FlushedView>) -> nat
    decreases f.len(),
{
    if f.len() == 0 {
        0
    } else {
        flushed_total(f.drop_last()) + f.last().1.len()
    }
}

/// The batch state after a message arrives: a worker not yet under
/// backpressure enters it when its topic's queue is known to be at or over
/// capacity; a worker under backpressure stays there.
pub open spec fn state_after_arrival(state: BatchState, capacity: Option<usize>, inflight: Option<usize>) -> BatchState {
    match (state, capacity, inflight) {
        (BatchState::Normal, Some(c), Some(f)) => if f >= c {
            BatchState::Backpressure
        } else {
            state
        },
        _ => state,
    }
}

/// The position of the partition's buffer, or -1 when it has none.
pub open spec fn partition_index(bufs: Seq<PartitionMessages>, partition: i32) -> int {
    if exists|i: int| 0 <= i < bufs.len() && (#[trigger] bufs[i]).0 == partition {
        choose|i: int| 0 <= i < bufs.len() && (#[trigger] bufs[i]).0 == partition
    } else {
        -1
    }
}

/// Takes the partition's batch when its buffer holds at least `max_batch_size`
/// messages and is not empty: the buffers after, and the batches taken.
pub open spec fn flush_full(bufs: Seq<PartitionMessages>, partition: i32, max_batch_size: usize) -> (
    Seq<PartitionMessages>,
    Seq<FlushedView>,
) {
    let i = partition_index(bufs, partition);
    if 0 <= i && bufs[i].1.len() >= max_batch_size && bufs[i].1.len() > 0 {
        (bufs.update(i, (partition, Seq::<OwnedMessage>::empty())), seq![(partition, bufs[i].1)])
    } else {
        (bufs, Seq::<FlushedView>::empty())
    }
}

/// Appends the message to its partition's buffer, creating the buffer at the
/// end when the partition has none.
pub open spec fn append_message(bufs: Seq<PartitionMessages>, msg: OwnedMessage) -> Seq<PartitionMessages> {
    let i = partition_index(bufs, msg.partition);
    if 0 <= i {
        bufs.update(i, (msg.partition, bufs[i].1.push(msg)))
    } else {
        bufs.push((msg.partition, seq![msg]))
    }
}

/// Every buffer emptied.
pub open spec fn emptied(bufs: Seq<PartitionMessages>) -> Seq<PartitionMessages> {
    bufs.map_values(|b: PartitionMessages| (b.0, Seq::<OwnedMessage>::empty()))
}

/// The buffered messages and the batches to run after `msg` arrives at
/// buffers `bufs`: everything is flushed first when `flush_everything`, then
/// the message's partition is flushed if full, the message is appended, and
/// the partition is flushed again if full.
pub open spec fn arrival(bufs: Seq<BufferView>, msg: OwnedMessage, flush_everything: bool, max_batch_size: usize) -> (
    Seq<PartitionMessages>,
    Seq<FlushedView>,
) {
    let start = if flush_everything {
        emptied(message_view(bufs))
    } else {
        message_view(bufs)
    };
    let first = if flush_everything {
        nonempty_batches(bufs)
    } else {
        Seq::<FlushedView>::empty()
    };
    let before_add = flush_full(start, msg.partition, max_batch_size);
    let after_add = flush_full(append_message(before_add.0, msg), msg.partition, max_batch_size);
    (after_add.0, first + before_add.1 + after_add.1)
}

proof fn lemma_partition_index(bufs: Seq<BufferView>, i: int)
    requires
        distinct_buffers(bufs),
        0 <= i < bufs.len(),
    ensures
        partition_index(message_view(bufs), bufs[i].0) == i,
{
    let mv = message_view(bufs);
    assert(mv[i].0 == bufs[i].0);
    let j = partition_index(mv, bufs[i].0);
    assert(mv[j].0 == bufs[j].0);
}

proof fn lemma_partition_absent(bufs: Seq<BufferView>, partition: i32)
    requires
        forall|i: int| 0 <= i < bufs.len() ==> (#[trigger] bufs[i]).0 != partition,
    ensures
        partition_index(message_view(bufs), partition) == -1,
{
    let mv = message_view(bufs);
    assert forall|i: int| 0 <= i < mv.len() implies (#[trigger] mv[i]).0 != partition by {
        assert(mv[i].0 == bufs[i].0);
    }
}

proof fn lemma_index_cases(bufs: Seq<BufferView>, partition: i32)
    requires
        distinct_buffers(bufs),
    ensures
        ({
            let k = partition_index(message_view(bufs), partition);
            (k == -1 && forall|i: int| 0 <= i < bufs.len() ==> (#[trigger] bufs[i]).0 != partition) || (0 <= k
                < bufs.len() && bufs[k].0 == partition && message_view(bufs)[k] == (bufs[k].0, bufs[k].1))
        }),
{
    if exists|i: int| 0 <= i < bufs.len() && (#[trigger] bufs[i]).0 == partition {
        let i = choose|i: int| 0 <= i < bufs.len() && (#[trigger] bufs[i]).0 == partition;
        lemma_partition_index(bufs, i);
    } else {
        lemma_partition_absent(bufs, partition);
    }
}

proof fn lemma_flushed_total_push(f: Seq<FlushedView>, e: FlushedView)
    ensures
        flushed_total(f.push(e)) == flushed_total(f) + e.1.len(),
{
    assert(f.push(e).drop_last() =~= f);
}

proof fn lemma_nonempty_batches_total(bufs: Seq<BufferView>)
    ensures
        flushed_total(nonempty_batches(bufs)) == total_messages(bufs),
        forall|i: int|
            0 <= i < nonempty_batches(bufs).len() ==> (#[trigger] nonempty_batches(bufs)[i]).1.len() > 0,
    decreases bufs.len(),
{
    if bufs.len() > 0 {
        lemma_nonempty_batches_total(bufs.drop_last());
        if bufs.last().1.len() > 0 {
            lemma_flushed_total_push(nonempty_batches(bufs.drop_last()), (bufs.last().0, bufs.last().1));
        }
    }
}

proof fn lemma_empty_total(bufs: Seq<BufferView>)
    requires
        forall|i: int| 0 <= i < bufs.len() ==> (#[trigger] bufs[i]).1.len() == 0,
    ensures
        total_messages(bufs) == 0,
    decreases bufs.len(),
{
    if bufs.len() > 0 {
        lemma_empty_total(bufs.drop_last());
    }
}

proof fn lemma_total_replace(bufs: Seq<BufferView>, i: int, v: BufferView)
    requires
        0 <= i < bufs.len(),
    ensures
        total_messages(bufs.update(i, v)) + bufs[i].1.len() == total_messages(bufs) + v.1.len(),
    decreases bufs.len(),
{
    let new = bufs.update(i, v);
    if i == bufs.len() - 1 {
        assert(new.drop_last() =~= bufs.drop_last());
    } else {
        lemma_total_replace(bufs.drop_last(), i, v);
        assert(new.drop_last() =~= bufs.drop_last().update(i, v));
    }
}

/// Flushes the partition's buffer when it holds a full batch, appending the
/// batch to `flushed`.
fn flush_if_full(acc: &mut BatchAccumulator, partition: i32, flushed: &mut Vec<(i32, Vec<OwnedMessage>)>)
    requires
        forall|i: int| 0 <= i < flushed_view(old(flushed)@).len() ==> (#[trigger] flushed_view(old(flushed)@)[i]).1.len() > 0,
    ensures
        total_messages(final(acc).buffers()) + flushed_total(flushed_view(final(flushed)@))
            == total_messages(old(acc).buffers()) + flushed_total(flushed_view(old(flushed)@)),
        forall|i: int| 0 <= i < flushed_view(final(flushed)@).len() ==> (#[trigger] flushed_view(final(flushed)@)[i]).1.len() > 0,
        final(flushed)@.len() >= old(flushed)@.len(),
        forall|k: int| 0 <= k < old(flushed)@.len() ==> final(flushed)@[k] == old(flushed)@[k],
        final(acc).spec_max_batch_size() == old(acc).spec_max_batch_size(),
        final(acc).spec_max_batch_wait_ms() == old(acc).spec_max_batch_wait_ms(),
        distinct_buffers(final(acc).buffers()),
        message_view(final(acc).buffers()) == flush_full(
            message_view(old(acc).buffers()),
            partition,
            old(acc).spec_max_batch_size(),
        ).0,
        flushed_view(final(flushed)@) == flushed_view(old(flushed)@) + flush_full(
            message_view(old(acc).buffers()),
            partition,
            old(acc).spec_max_batch_size(),
        ).1,
{
    let ghost before = acc.buffers();
    let ghost fb = flushed_view(flushed@);
    let ghost max = acc.spec_max_batch_size();
    let full = acc.would_fill_partition(partition);
    proof {
        lemma_index_cases(before, partition);
    }
    if full {
        match acc.flush_partition(partition) {
            Some(batch) => {
                proof {
                    let i = choose|i: int|
                        0 <= i < before.len() && (#[trigger] before[i]).0 == partition && before[i].1.len() > 0
                            && batch@ == before[i].1 && acc.buffers() == before.update(
                            i,
                            (partition, Seq::<OwnedMessage>::empty(), None),
                        );
                    lemma_total_replace(before, i, (partition, Seq::<OwnedMessage>::empty(), None));
                    lemma_flushed_total_push(fb, (partition, batch@));
                    lemma_partition_index(before, i);
                    let w = choose|w: int|
                        0 <= w < before.len() && (#[trigger] before[w]).0 == partition && before[w].1.len()
                            >= max;
                    lemma_partition_index(before, w);
                    assert(message_view(acc.buffers()) =~= message_view(before).update(
                        i,
                        (partition, Seq::<OwnedMessage>::empty()),
                    ));
                    assert forall|a: int, b: int| 0 <= a < b < acc.buffers().len() implies (#[trigger] acc.buffers()[a]).0
                        != (#[trigger] acc.buffers()[b]).0 by {
                        assert(acc.buffers()[a].0 == before[a].0 && acc.buffers()[b].0 == before[b].0);
                    }
                }
                flushed.push((partition, batch));
                proof {
                    assert(flushed_view(flushed@) =~= fb + seq![(partition, batch@)]);
                }
            },
            None => {
                proof {
                    assert(flushed_view(flushed@) =~= fb + Seq::<FlushedView>::empty());
                }
            },
        }
    } else {
        proof {
            assert(flushed_view(flushed@) =~= fb + Seq::<FlushedView>::empty());
        }
    }
}

/// What a batch worker does when a message arrives: under a queue at
/// capacity it first flushes every partition and enters backpressure; it
/// flushes the message's partition if that already holds a full batch, adds
/// the message, and flushes the partition again if the batch is now full.
/// Answers the new state and the batches to run, in order.
///
/// No message is lost or duplicated: the buffered messages and those in the
/// flushed batches are exactly the ones buffered before plus the new one;
/// and every flushed batch holds at least one message.
pub fn accept_message(
    acc: &mut BatchAccumulator,
    state: BatchState,
    msg: OwnedMessage,
    capacity: Option<usize>,
    inflight: Option<usize>,
) -> (r: (BatchState, Vec<(i32, Vec<OwnedMessage>)>))
    ensures
        r.0 == state_after_arrival(state, capacity, inflight),
        total_messages(final(acc).buffers()) + flushed_total(flushed_view(r.1@))
            == total_messages(old(acc).buffers()) + 1,
        forall|i: int| 0 <= i < flushed_view(r.1@).len() ==> (#[trigger] flushed_view(r.1@)[i]).1.len() > 0,
        (message_view(final(acc).buffers()), flushed_view(r.1@)) == arrival(
            old(acc).buffers(),
            msg,
            state_after_arrival(state, capacity, inflight) != state,
            old(acc).spec_max_batch_size(),
        ),
        final(acc).spec_max_batch_size() == old(acc).spec_max_batch_size(),
        final(acc).spec_max_batch_wait_ms() == old(acc).spec_max_batch_wait_ms(),
{
    let ghost start = acc.buffers();
    let mut flushed: Vec<(i32, Vec<OwnedMessage>)> = Vec::new();
    let mut new_state = state;
    let mut at_capacity = false;
    if !state.is_backpressure() {
        if let Some(c) = capacity {
            if let Some(f) = inflight {
                at_capacity = f >= c;
            }
        }
    }
    proof {
        assert(flushed_view(flushed@) =~= Seq::<FlushedView>::empty());
    }
    if at_capacity {
        new_state = BatchState::Backpressure;
        flushed = acc.flush_all();
        proof {
            assert(flushed_view(flushed@) =~= nonempty_batches(start));
            lemma_nonempty_batches_total(start);
            lemma_empty_total(acc.buffers());
        }
    }
    let ghost max = acc.spec_max_batch_size();
    let ghost m = msg;
    proof {
        if at_capacity {
            assert forall|k: int| 0 <= k < acc.buffers().len() implies message_view(acc.buffers())[k] == emptied(
                message_view(start),
            )[k] by {
                assert(acc.buffers()[k].1 =~= Seq::<OwnedMessage>::empty());
            }
            assert(message_view(acc.buffers()) =~= emptied(message_view(start)));
        }
    }
    let ghost first = flushed_view(flushed@);
    let partition = msg.partition;
    flush_if_full(acc, partition, &mut flushed);
    let ghost before_add = acc.buffers();
    acc.add(msg);
    proof {
        let now = choose|now: i64| added(before_add, acc.buffers(), m, now, acc.spec_max_batch_wait_ms());
        lemma_index_cases(before_add, partition);
        if exists|i: int| 0 <= i < before_add.len() && (#[trigger] before_add[i]).0 == partition {
            let i = choose|i: int|
                0 <= i < before_add.len() && (#[trigger] before_add[i]).0 == partition && acc.buffers()
                    == before_add.update(
                    i,
                    (
                        partition,
                        before_add[i].1.push(m),
                        if before_add[i].1.len() == 0 {
                            Some(crate::worker_pool::accumulator::window_end(now, acc.spec_max_batch_wait_ms()))
                        } else {
                            before_add[i].2
                        },
                    ),
                );
            lemma_partition_index(before_add, i);
            assert(message_view(acc.buffers()) =~= append_message(message_view(before_add), m));
        } else {
            assert(message_view(acc.buffers()) =~= append_message(message_view(before_add), m));
        }
    }
    flush_if_full(acc, partition, &mut flushed);
    proof {
        assert(first + flush_full(
            if at_capacity { emptied(message_view(start)) } else { message_view(start) },
            partition,
            max,
        ).1 + flush_full(append_message(
            flush_full(
                if at_capacity { emptied(message_view(start)) } else { message_view(start) },
                partition,
                max,
            ).0,
            m,
        ), partition, max).1 =~= flushed_view(flushed@));
    }
    (new_state, flushed)
}

} // verus!
