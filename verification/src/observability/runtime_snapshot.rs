//! Runtime introspection: the worker pool's per-worker status, and the
//! periodic snapshot of workers, queues, accumulators and consumer lag.

use vstd::prelude::*;
use crate::observability::metrics::QueueSnapshot;
use crate::seqs::{first_index, lemma_first_index_at, lemma_first_index_none, lemma_first_index_spec};
use crate::text::str_eq;

verus! {

/// What a worker is doing, as the worker pool tracks it.
#[derive(Debug)]
pub enum WorkerStatus {
    Idle,
    Active { handler_id: String, topic: String, partition: i32, offset: i64 },
    Busy { handler_id: String },
}

impl Clone for WorkerStatus {
    fn clone(&self) -> (r: Self)
        ensures
            r == *self,
    {
        match self {
            WorkerStatus::Idle => WorkerStatus::Idle,
            WorkerStatus::Active { handler_id, topic, partition, offset } => WorkerStatus::Active {
                handler_id: handler_id.clone(),
                topic: topic.clone(),
                partition: *partition,
                offset: *offset,
            },
            WorkerStatus::Busy { handler_id } => WorkerStatus::Busy { handler_id: handler_id.clone() },
        }
    }
}

/// A worker's activity as reported in a snapshot; one for one with `WorkerStatus`.
#[derive(Debug)]
pub enum WorkerState {
    Idle,
    Active { handler_id: String, topic: String, partition: i32, offset: i64 },
    Busy { handler_id: String },
}

impl Clone for WorkerState {
    fn clone(&self) -> (r: Self)
        ensures
            r == *self,
    {
        match self {
            WorkerState::Idle => WorkerState::Idle,
            WorkerState::Active { handler_id, topic, partition, offset } => WorkerState::Active {
                handler_id: handler_id.clone(),
                topic: topic.clone(),
                partition: *partition,
                offset: *offset,
            },
            WorkerState::Busy { handler_id } => WorkerState::Busy { handler_id: handler_id.clone() },
        }
    }
}

/// Copies keyed entries one by one, for key and value types whose clone is
/// an equal value.
fn clone_entries<K: Clone, V: Clone>(v: &Vec<(K, V)>) -> (r: Vec<(K, V)>)
    requires
        forall|a: K, b: K| #[trigger] call_ensures(K::clone, (&a,), b) ==> b == a,
        forall|a: V, b: V| #[trigger] call_ensures(V::clone, (&a,), b) ==> b == a,
    ensures
        r@ == v@,
{
    let mut out: Vec<(K, V)> = Vec::new();
    let mut i: usize = 0;
    while i < v.len()
        invariant
            i <= v@.len(),
            out@ == v@.subrange(0, i as int),
            forall|a: K, b: K| #[trigger] call_ensures(K::clone, (&a,), b) ==> b == a,
            forall|a: V, b: V| #[trigger] call_ensures(V::clone, (&a,), b) ==> b == a,
        decreases v@.len() - i,
    {
        let k = v[i].0.clone();
        let x = v[i].1.clone();
        proof {
            assert(k == v@[i as int].0);
            assert(x == v@[i as int].1);
        }
        out.push((k, x));
        proof {
            assert(out@ =~= v@.subrange(0, i + 1));
        }
        i += 1;
    }
    proof {
        assert(v@.subrange(0, v@.len() as int) =~= v@);
    }
    out
}

/// Keyed entries with their values taken by view.
pub open spec fn entries_view<K, V: View>(s: Seq<(K, V)>) -> Seq<(K, V::V)> {
    s.map_values(|e: (K, V)| (e.0, e.1@))
}

/// Copies keyed entries one by one, for key types whose clone is an equal
/// value and value types whose clone has an equal view.
fn clone_viewed_entries<K: Clone, V: Clone + View>(v: &Vec<(K, V)>) -> (r: Vec<(K, V)>)
    requires
        forall|a: K, b: K| #[trigger] call_ensures(K::clone, (&a,), b) ==> b == a,
        forall|a: V, b: V| #[trigger] call_ensures(V::clone, (&a,), b) ==> b@ == a@,
    ensures
        entries_view(r@) == entries_view(v@),
{
    let mut out: Vec<(K, V)> = Vec::new();
    let mut i: usize = 0;
    while i < v.len()
        invariant
            i <= v@.len(),
            entries_view(out@) == entries_view(v@.subrange(0, i as int)),
            forall|a: K, b: K| #[trigger] call_ensures(K::clone, (&a,), b) ==> b == a,
            forall|a: V, b: V| #[trigger] call_ensures(V::clone, (&a,), b) ==> b@ == a@,
        decreases v@.len() - i,
    {
        let k = v[i].0.clone();
        let x = v[i].1.clone();
        proof {
            assert(k == v@[i as int].0);
            assert(x@ == v@[i as int].1@);
        }
        let ghost before = out@;
        out.push((k, x));
        proof {
            assert(entries_view(out@) =~= entries_view(before).push((k, x@)));
            assert(entries_view(v@.subrange(0, i + 1)) =~= entries_view(v@.subrange(0, i as int)).push(
                (v@[i as int].0, v@[i as int].1@),
            ));
        }
        i += 1;
    }
    proof {
        assert(v@.subrange(0, v@.len() as int) =~= v@);
    }
    out
}

/// The snapshot form of a worker status.
pub open spec fn state_of(s: WorkerStatus) -> WorkerState {
    match s {
        WorkerStatus::Idle => WorkerState::Idle,
        WorkerStatus::Active { handler_id, topic, partition, offset } => WorkerState::Active {
            handler_id,
            topic,
            partition,
            offset,
        },
        WorkerStatus::Busy { handler_id } => WorkerState::Busy { handler_id },
    }
}

impl WorkerState {
    /// The snapshot form of a worker status.
    pub fn from_status(s: WorkerStatus) -> (r: Self)
        ensures
            r == state_of(s),
    {
        match s {
            WorkerStatus::Idle => WorkerState::Idle,
            WorkerStatus::Active { handler_id, topic, partition, offset } => WorkerState::Active {
                handler_id,
                topic,
                partition,
                offset,
            },
            WorkerStatus::Busy { handler_id } => WorkerState::Busy { handler_id },
        }
    }
}

pub open spec fn worker_pred(id: usize) -> spec_fn((usize, WorkerStatus)) -> bool {
    |e: (usize, WorkerStatus)| e.0 == id
}

pub open spec fn distinct_workers(s: Seq<(usize, WorkerStatus)>) -> bool {
    forall|i: int, j: int| 0 <= i < j < s.len() ==> (#[trigger] s[i]).0 != (#[trigger] s[j]).0
}

/// The statuses after setting worker `id`'s: its entry is replaced, or
/// appended when the worker was not tracked.
pub open spec fn with_status(
    entries: Seq<(usize, WorkerStatus)>,
    id: usize,
    s: WorkerStatus,
) -> Seq<(usize, WorkerStatus)> {
    match first_index(entries, worker_pred(id)) {
        Some(i) => entries.update(i, (id, s)),
        None => entries.push((id, s)),
    }
}

/// The numbers of idle, active and busy workers.
pub open spec fn status_counts(entries: Seq<(usize, WorkerStatus)>) -> (nat, nat, nat)
    decreases entries.len(),
{
    if entries.len() == 0 {
        (0, 0, 0)
    } else {
        let (i, a, b) = status_counts(entries.drop_last());
        match entries.last().1 {
            WorkerStatus::Idle => (i + 1, a, b),
            WorkerStatus::Active { .. } => (i, a + 1, b),
            WorkerStatus::Busy { .. } => (i, a, b + 1),
        }
    }
}

/// Per-worker status of the worker pool.
#[derive(Debug)]
pub struct WorkerPoolState {
    states: Vec<(usize, WorkerStatus)>,
}

impl WorkerPoolState {
    #[verifier::type_invariant]
    spec fn inv(&self) -> bool {
        distinct_workers(self.states@)
    }

    /// The tracked workers and their statuses, in order of first tracking.
    pub closed spec fn entries(&self) -> Seq<(usize, WorkerStatus)> {
        self.states@
    }

    /// Workers 0 to `n_workers - 1`, all idle.
    pub fn new(n_workers: usize) -> (r: Self)
        ensures
            r.entries().len() == n_workers,
            forall|i: int|
                0 <= i < n_workers ==> (#[trigger] r.entries()[i]).0 == i && r.entries()[i].1
                    is Idle,
    {
        let mut states: Vec<(usize, WorkerStatus)> = Vec::new();
        let mut id: usize = 0;
        while id < n_workers
            invariant
                id <= n_workers,
                states@.len() == id,
                forall|i: int| 0 <= i < id ==> (#[trigger] states@[i]).0 == i && states@[i].1 is Idle,
            decreases n_workers - id,
        {
            states.push((id, WorkerStatus::Idle));
            id += 1;
        }
        WorkerPoolState { states }
    }

    fn find(&self, worker_id: usize) -> (r: Option<usize>)
        ensures
            match r {
                Some(i) => i < self.entries().len() && first_index(self.entries(), worker_pred(worker_id))
                    == Some(i as int),
                None => first_index(self.entries(), worker_pred(worker_id)) is None,
            },
    {
        let mut i: usize = 0;
        while i < self.states.len()
            invariant
                i <= self.states@.len(),
                forall|j: int| 0 <= j < i ==> !worker_pred(worker_id)(#[trigger] self.states@[j]),
            decreases self.states.len() - i,
        {
            if self.states[i].0 == worker_id {
                proof {
                    lemma_first_index_at(self.states@, worker_pred(worker_id), i as int);
                }
                return Some(i);
            }
            i += 1;
        }
        proof {
            lemma_first_index_none(self.states@, worker_pred(worker_id));
        }
        None
    }

    fn set(&mut self, worker_id: usize, status: WorkerStatus)
        ensures
            final(self).entries() == with_status(old(self).entries(), worker_id, status),
    {
        proof {
            use_type_invariant(&*self);
        }
        let ghost old_states = self.states@;
        let found = self.find(worker_id);
        proof {
            lemma_first_index_spec(old_states, worker_pred(worker_id));
        }
        let mut states: Vec<(usize, WorkerStatus)> = Vec::new();
        std::mem::swap(&mut states, &mut self.states);
        match found {
            Some(i) => {
                states.set(i, (worker_id, status));
                proof {
                    let new = states@;
                    assert forall|a: int, b: int| 0 <= a < b < new.len() implies (#[trigger] new[a]).0
                        != (#[trigger] new[b]).0 by {
                        if a != i && b != i {
                            assert(new[a] == old_states[a] && new[b] == old_states[b]);
                        } else if a == i {
                            assert(new[b] == old_states[b]);
                            assert(old_states[a].0 != old_states[b].0);
                        } else {
                            assert(new[a] == old_states[a]);
                            assert(old_states[a].0 != old_states[b].0);
                        }
                    }
                }
            },
            None => {
                states.push((worker_id, status));
                proof {
                    let new = states@;
                    assert forall|a: int, b: int| 0 <= a < b < new.len() implies (#[trigger] new[a]).0
                        != (#[trigger] new[b]).0 by {
                        if b == old_states.len() {
                            assert(new[a] == old_states[a]);
                            assert(!worker_pred(worker_id)(old_states[a]));
                        } else {
                            assert(new[a] == old_states[a] && new[b] == old_states[b]);
                        }
                    }
                }
            },
        }
        self.states = states;
    }

    /// Marks a worker as processing a message.
    pub fn set_active(
        &mut self,
        worker_id: usize,
        handler_id: String,
        topic: String,
        partition: i32,
        offset: i64,
    )
        ensures
            final(self).entries() == with_status(
                old(self).entries(),
                worker_id,
                WorkerStatus::Active { handler_id, topic, partition, offset },
            ),
    {
        self.set(worker_id, WorkerStatus::Active { handler_id, topic, partition, offset });
    }

    /// Marks a worker as running a batch.
    pub fn set_busy(&mut self, worker_id: usize, handler_id: String)
        ensures
            final(self).entries() == with_status(
                old(self).entries(),
                worker_id,
                WorkerStatus::Busy { handler_id },
            ),
    {
        self.set(worker_id, WorkerStatus::Busy { handler_id });
    }

    /// Marks a worker as idle.
    pub fn set_idle(&mut self, worker_id: usize)
        ensures
            final(self).entries() == with_status(old(self).entries(), worker_id, WorkerStatus::Idle),
    {
        self.set(worker_id, WorkerStatus::Idle);
    }

    /// The current statuses.
    pub fn get_states(&self) -> (r: Vec<(usize, WorkerStatus)>)
        ensures
            r@ == self.entries(),
    {
        let mut out: Vec<(usize, WorkerStatus)> = Vec::new();
        let mut i: usize = 0;
        while i < self.states.len()
            invariant
                i <= self.states@.len(),
                out@ == self.states@.subrange(0, i as int),
            decreases self.states.len() - i,
        {
            let (id, s) = &self.states[i];
            out.push((*id, s.clone()));
            proof {
                assert(out@ =~= self.states@.subrange(0, i + 1));
            }
            i += 1;
        }
        proof {
            assert(self.states@.subrange(0, self.states@.len() as int) =~= self.states@);
        }
        out
    }

    /// The numbers of idle, active and busy workers.
    pub fn worker_counts(&self) -> (r: (usize, usize, usize))
        ensures
            (r.0 as nat, r.1 as nat, r.2 as nat) == status_counts(self.entries()),
    {
        let mut idle: usize = 0;
        let mut active: usize = 0;
        let mut busy: usize = 0;
        let mut i: usize = 0;
        while i < self.states.len()
            invariant
                i <= self.states@.len(),
                (idle as nat, active as nat, busy as nat) == status_counts(
                    self.states@.subrange(0, i as int),
                ),
                idle + active + busy == i,
            decreases self.states.len() - i,
        {
            proof {
                assert(self.states@.subrange(0, i + 1).drop_last() =~= self.states@.subrange(0, i as int));
            }
            match &self.states[i].1 {
                WorkerStatus::Idle => idle += 1,
                WorkerStatus::Active { .. } => active += 1,
                WorkerStatus::Busy { .. } => busy += 1,
            }
            i += 1;
        }
        proof {
            assert(self.states@.subrange(0, self.states@.len() as int) =~= self.states@);
        }
        (idle, active, busy)
    }
}

/// Every tracked worker is counted exactly once: the idle, active and busy
/// counts add up to the number of tracked workers.
pub proof fn law_worker_counts_partition(entries: Seq<(usize, WorkerStatus)>)
    ensures
        status_counts(entries).0 + status_counts(entries).1 + status_counts(entries).2
            == entries.len(),
    decreases entries.len(),
{
    if entries.len() > 0 {
        law_worker_counts_partition(entries.drop_last());
    }
}

/// Queue depth and in-flight count of one handler.
#[derive(Debug, Clone, Copy, PartialEq, Eq, Structural)]
pub struct QueueDepthInfo {
    pub queue_depth: usize,
    pub inflight: usize,
}

impl QueueDepthInfo {
    /// The depth and in-flight count of a queue snapshot.
    pub fn from_snapshot(s: &QueueSnapshot) -> (r: Self)
        ensures
            r.queue_depth == s.queue_depth,
            r.inflight == s.inflight,
    {
        QueueDepthInfo { queue_depth: s.queue_depth, inflight: s.inflight }
    }
}

/// Per-partition accumulator state.
#[derive(Debug, Clone, Copy, PartialEq, Eq, Structural)]
pub struct PartitionAccumulatorInfo {
    pub message_count: usize,
    pub has_deadline: bool,
    pub deadline_ms_remaining: Option<i64>,
}

/// Accumulator state of one handler.
#[derive(Debug)]
pub struct AccumulatorInfo {
    pub total_messages: usize,
    pub partitions: Vec<(i32, PartitionAccumulatorInfo)>,
}

impl View for AccumulatorInfo {
    type V = (usize, Seq<(i32, PartitionAccumulatorInfo)>);

    open spec fn view(&self) -> Self::V {
        (self.total_messages, self.partitions@)
    }
}

impl Clone for AccumulatorInfo {
    fn clone(&self) -> (r: Self)
        ensures
            r@ == self@,
    {
        AccumulatorInfo { total_messages: self.total_messages, partitions: clone_entries(&self.partitions) }
    }
}

/// Lag of one partition.
#[derive(Debug, Clone, Copy, PartialEq, Eq, Structural)]
pub struct PartitionLagInfo {
    pub consumer_lag: i64,
    pub committed_offset: i64,
}

/// Lag of one topic and of its partitions.
#[derive(Debug)]
pub struct TopicLagInfo {
    pub total_lag: i64,
    pub partitions: Vec<(i32, PartitionLagInfo)>,
}

impl View for TopicLagInfo {
    type V = (i64, Seq<(i32, PartitionLagInfo)>);

    open spec fn view(&self) -> Self::V {
        (self.total_lag, self.partitions@)
    }
}

impl Clone for TopicLagInfo {
    fn clone(&self) -> (r: Self)
        ensures
            r@ == self@,
    {
        TopicLagInfo { total_lag: self.total_lag, partitions: clone_entries(&self.partitions) }
    }
}

/// Consumer lag across all topics.
#[derive(Debug)]
pub struct ConsumerLagSummary {
    pub total_lag: i64,
    pub per_topic: Vec<(String, TopicLagInfo)>,
}

impl View for ConsumerLagSummary {
    type V = (i64, Seq<(String, (i64, Seq<(i32, PartitionLagInfo)>))>);

    open spec fn view(&self) -> Self::V {
        (self.total_lag, entries_view(self.per_topic@))
    }
}

impl Clone for ConsumerLagSummary {
    fn clone(&self) -> (r: Self)
        ensures
            r@ == self@,
    {
        ConsumerLagSummary { total_lag: self.total_lag, per_topic: clone_viewed_entries(&self.per_topic) }
    }
}

impl Default for ConsumerLagSummary {
    fn default() -> (r: Self)
        ensures
            r.total_lag == 0,
            r.per_topic@.len() == 0,
    {
        ConsumerLagSummary { total_lag: 0, per_topic: Vec::new() }
    }
}

/// A lag summary as values: per topic (in order of first appearance) its
/// partitions and their committed offsets, in order of first appearance.
pub type LagModel = Seq<(Seq<char>, Seq<(i32, i64)>)>;

/// The partitions of a topic after recording a committed offset: an
/// existing partition's offset is replaced, a new partition appended.
pub open spec fn partition_pred(partition: i32) -> spec_fn((i32, i64)) -> bool {
    |e: (i32, i64)| e.0 == partition
}

pub open spec fn topic_entry_pred(topic: Seq<char>) -> spec_fn((Seq<char>, Seq<(i32, i64)>)) -> bool {
    |e: (Seq<char>, Seq<(i32, i64)>)| e.0 == topic
}

/// A partition's lag entry as values: partition and committed offset.
pub open spec fn part_view(q: (i32, PartitionLagInfo)) -> (i32, i64) {
    (q.0, q.1.committed_offset)
}

pub open spec fn parts_view(s: Seq<(i32, PartitionLagInfo)>) -> Seq<(i32, i64)> {
    s.map_values(|q: (i32, PartitionLagInfo)| part_view(q))
}

pub open spec fn record_partition(parts: Seq<(i32, i64)>, partition: i32, committed: i64) -> Seq<(i32, i64)> {
    match first_index(parts, partition_pred(partition)) {
        Some(i) => parts.update(i, (partition, committed)),
        None => parts.push((partition, committed)),
    }
}

/// The lag summary of a list of committed offsets, grouped by topic.
pub open spec fn lag_model(offsets: Seq<(String, i32, i64)>) -> LagModel
    decreases offsets.len(),
{
    if offsets.len() == 0 {
        seq![]
    } else {
        let prev = lag_model(offsets.drop_last());
        let (t, p, c) = offsets.last();
        match first_index(prev, topic_entry_pred(t@)) {
            Some(i) => prev.update(i, (t@, record_partition(prev[i].1, p, c))),
            None => prev.push((t@, seq![(p, c)])),
        }
    }
}

pub open spec fn topic_lag_view(e: (String, TopicLagInfo)) -> (Seq<char>, Seq<(i32, i64)>) {
    (e.0@, parts_view(e.1.partitions@))
}

/// The summary's committed offsets match the model, and every lag is 0
/// (the lag is not yet known at this level).
pub open spec fn summary_matches(s: ConsumerLagSummary, m: LagModel) -> bool {
    &&& s.total_lag == 0
    &&& s.per_topic@.map_values(|e: (String, TopicLagInfo)| topic_lag_view(e)) == m
    &&& forall|i: int|
        0 <= i < s.per_topic@.len() ==> (#[trigger] s.per_topic@[i]).1.total_lag == 0 && forall|j: int|
            0 <= j < s.per_topic@[i].1.partitions@.len() ==> (
            #[trigger] s.per_topic@[i].1.partitions@[j]).1.consumer_lag == 0
}

fn partition_position(parts: &Vec<(i32, PartitionLagInfo)>, partition: i32) -> (r: Option<usize>)
    ensures
        match r {
            Some(i) => i < parts@.len() && first_index(parts_view(parts@), partition_pred(partition))
                == Some(i as int),
            None => first_index(parts_view(parts@), partition_pred(partition)) is None,
        },
{
    let ghost pv = parts_view(parts@);
    let mut i: usize = 0;
    while i < parts.len()
        invariant
            i <= parts@.len(),
            pv == parts_view(parts@),
            forall|j: int| 0 <= j < i ==> !partition_pred(partition)(#[trigger] pv[j]),
        decreases parts.len() - i,
    {
        if parts[i].0 == partition {
            proof {
                lemma_first_index_at(pv, partition_pred(partition), i as int);
            }
            return Some(i);
        }
        i += 1;
    }
    proof {
        lemma_first_index_none(pv, partition_pred(partition));
    }
    None
}

fn record_in(parts: &mut Vec<(i32, PartitionLagInfo)>, partition: i32, committed: i64)
    requires
        forall|j: int| 0 <= j < old(parts)@.len() ==> (#[trigger] old(parts)@[j]).1.consumer_lag == 0,
    ensures
        parts_view(final(parts)@) == record_partition(parts_view(old(parts)@), partition, committed),
        forall|j: int| 0 <= j < final(parts)@.len() ==> (#[trigger] final(parts)@[j]).1.consumer_lag == 0,
{
    let ghost pv = parts_view(parts@);
    let ghost before = parts@;
    let info = PartitionLagInfo { consumer_lag: 0, committed_offset: committed };
    match partition_position(parts, partition) {
        Some(i) => {
            parts.set(i, (partition, info));
            proof {
                assert(parts@ == before.update(i as int, (partition, info)));
                assert(parts_view(parts@) =~= pv.update(i as int, (partition, committed)));
            }
        },
        None => {
            parts.push((partition, info));
            proof {
                assert(parts_view(parts@) =~= pv.push((partition, committed)));
            }
        },
    }
}

impl ConsumerLagSummary {
    /// The lag summary of the committed offsets of every tracked partition,
    /// grouped by topic; the lags themselves are 0 until measured.
    pub fn from_committed(offsets: &[(String, i32, i64)]) -> (r: Self)
        ensures
            summary_matches(r, lag_model(offsets@)),
    {
        let mut per_topic: Vec<(String, TopicLagInfo)> = Vec::new();
        proof {
            assert(offsets@.subrange(0, 0) =~= Seq::<(String, i32, i64)>::empty());
            assert(per_topic@.map_values(|e: (String, TopicLagInfo)| topic_lag_view(e)) =~= Seq::<(Seq<char>, Seq<(i32, i64)>)>::empty());
        }
        let mut i: usize = 0;
        while i < offsets.len()
            invariant
                i <= offsets@.len(),
                summary_matches(
                    ConsumerLagSummary { total_lag: 0, per_topic },
                    lag_model(offsets@.subrange(0, i as int)),
                ),
            decreases offsets.len() - i,
        {
            let ghost prefix = offsets@.subrange(0, i as int);
            let ghost next = offsets@.subrange(0, i + 1);
            proof {
                assert(next.drop_last() =~= prefix);
            }
            let (t, p, c) = &offsets[i];
            let ghost model = lag_model(prefix);
            let ghost tpred = topic_entry_pred(t@);
            let ghost view = per_topic@.map_values(|e: (String, TopicLagInfo)| topic_lag_view(e));
            let mut j: usize = 0;
            while j < per_topic.len() && !str_eq(per_topic[j].0.as_str(), t.as_str())
                invariant
                    j <= per_topic@.len(),
                    view == per_topic@.map_values(|e: (String, TopicLagInfo)| topic_lag_view(e)),
                    tpred == topic_entry_pred(t@),
                    forall|m: int| 0 <= m < j ==> !tpred(#[trigger] view[m]),
                decreases per_topic.len() - j,
            {
                j += 1;
            }
            let ghost before = per_topic@;
            if j < per_topic.len() {
                proof {
                    lemma_first_index_at(view, tpred, j as int);
                }
                let mut entries: Vec<(String, TopicLagInfo)> = Vec::new();
                std::mem::swap(&mut entries, &mut per_topic);
                let (name, mut info) = entries.remove(j);
                proof {
                    assert(before[j as int] == (name, info));
                }
                record_in(&mut info.partitions, *p, *c);
                entries.insert(j, (name, info));
                per_topic = entries;
                proof {
                    assert(per_topic@.map_values(|e: (String, TopicLagInfo)| topic_lag_view(e))
                        =~= view.update(j as int, (t@, record_partition(view[j as int].1, *p, *c))));
                    let s = ConsumerLagSummary { total_lag: 0, per_topic };
                    assert forall|a: int| 0 <= a < s.per_topic@.len() implies (#[trigger] s.per_topic@[a]).1.total_lag == 0
                        && forall|b: int| 0 <= b < s.per_topic@[a].1.partitions@.len() ==> (
                        #[trigger] s.per_topic@[a].1.partitions@[b]).1.consumer_lag == 0 by {
                        if a != j {
                            assert(s.per_topic@[a] == before[a]);
                        }
                    }
                }
            } else {
                proof {
                    lemma_first_index_none(view, tpred);
                }
                let mut parts: Vec<(i32, PartitionLagInfo)> = Vec::new();
                parts.push((*p, PartitionLagInfo { consumer_lag: 0, committed_offset: *c }));
                per_topic.push((t.clone(), TopicLagInfo { total_lag: 0, partitions: parts }));
                proof {
                    assert(parts_view(parts@) =~= seq![(*p, *c)]);
                    assert(per_topic@.map_values(|e: (String, TopicLagInfo)| topic_lag_view(e))
                        =~= view.push((t@, seq![(*p, *c)])));
                    let s = ConsumerLagSummary { total_lag: 0, per_topic };
                    assert forall|a: int| 0 <= a < s.per_topic@.len() implies (#[trigger] s.per_topic@[a]).1.total_lag == 0
                        && forall|b: int| 0 <= b < s.per_topic@[a].1.partitions@.len() ==> (
                        #[trigger] s.per_topic@[a].1.partitions@[b]).1.consumer_lag == 0 by {
                        if a < before.len() {
                            assert(s.per_topic@[a] == before[a]);
                        }
                    }
                }
            }
            i += 1;
        }
        proof {
            assert(offsets@.subrange(0, offsets@.len() as int) =~= offsets@);
        }
        ConsumerLagSummary { total_lag: 0, per_topic }
    }
}

/// A snapshot of the runtime, refreshed periodically.
#[derive(Debug)]
pub struct RuntimeSnapshot {
    /// When the snapshot was taken, in milliseconds since the Unix epoch (UTC).
    pub timestamp: u64,
    /// Worker id and activity, per tracked worker.
    pub worker_states: Vec<(usize, WorkerState)>,
    /// Queue depth per handler.
    pub queue_depths: Vec<(String, QueueDepthInfo)>,
    /// Accumulator state per handler.
    pub accumulator_info: Vec<(String, AccumulatorInfo)>,
    /// Consumer lag summary.
    pub consumer_lag_summary: ConsumerLagSummary,
}

impl Clone for RuntimeSnapshot {
    fn clone(&self) -> (r: Self)
        ensures
            r.timestamp == self.timestamp,
            r.worker_states@ == self.worker_states@,
            r.queue_depths@ == self.queue_depths@,
            entries_view(r.accumulator_info@) == entries_view(self.accumulator_info@),
            r.consumer_lag_summary@ == self.consumer_lag_summary@,
    {
        RuntimeSnapshot {
            timestamp: self.timestamp,
            worker_states: clone_entries(&self.worker_states),
            queue_depths: clone_entries(&self.queue_depths),
            accumulator_info: clone_viewed_entries(&self.accumulator_info),
            consumer_lag_summary: self.consumer_lag_summary.clone(),
        }
    }
}

impl Default for RuntimeSnapshot {
    /// An empty snapshot stamped at the Unix epoch.
    fn default() -> (r: Self)
        ensures
            r.timestamp == 0,
            r.worker_states@.len() == 0,
            r.queue_depths@.len() == 0,
            r.accumulator_info@.len() == 0,
            r.consumer_lag_summary.total_lag == 0,
            r.consumer_lag_summary.per_topic@.len() == 0,
    {
        RuntimeSnapshot {
            timestamp: 0,
            worker_states: Vec::new(),
            queue_depths: Vec::new(),
            accumulator_info: Vec::new(),
            consumer_lag_summary: ConsumerLagSummary::default(),
        }
    }
}

impl RuntimeSnapshot {
    /// Assembles a snapshot taken at `timestamp` from the worker statuses,
    /// the handlers' queue snapshots and the committed offsets. Accumulator
    /// state is not collected.
    pub fn assemble(
        timestamp: u64,
        statuses: Vec<(usize, WorkerStatus)>,
        queues: &[(String, QueueSnapshot)],
        committed: &[(String, i32, i64)],
    ) -> (r: Self)
        ensures
            r.timestamp == timestamp,
            r.worker_states@.len() == statuses@.len(),
            forall|i: int|
                0 <= i < statuses@.len() ==> (#[trigger] r.worker_states@[i]).0 == statuses@[i].0
                    && r.worker_states@[i].1 == state_of(statuses@[i].1),
            r.queue_depths@.len() == queues@.len(),
            forall|i: int|
                0 <= i < queues@.len() ==> (#[trigger] r.queue_depths@[i]).0 == queues@[i].0
                    && r.queue_depths@[i].1.queue_depth == queues@[i].1.queue_depth
                    && r.queue_depths@[i].1.inflight == queues@[i].1.inflight,
            r.accumulator_info@.len() == 0,
            summary_matches(r.consumer_lag_summary, lag_model(committed@)),
    {
        let mut worker_states: Vec<(usize, WorkerState)> = Vec::new();
        let mut statuses = statuses;
        let ghost all = statuses@;
        let mut k: usize = 0;
        let n = statuses.len();
        let mut rev: Vec<(usize, WorkerState)> = Vec::new();
        while statuses.len() > 0
            invariant
                statuses@ == all.subrange(0, statuses@.len() as int),
                statuses@.len() + rev@.len() == all.len(),
                forall|i: int|
                    0 <= i < rev@.len() ==> (#[trigger] rev@[i]).0 == all[all.len() - 1 - i].0
                        && rev@[i].1 == state_of(all[all.len() - 1 - i].1),
            decreases statuses.len(),
        {
            let (id, s) = statuses.pop().unwrap();
            rev.push((id, WorkerState::from_status(s)));
            proof {
                assert(statuses@ =~= all.subrange(0, statuses@.len() as int));
            }
        }
        while rev.len() > 0
            invariant
                rev@.len() + worker_states@.len() == all.len(),
                forall|i: int|
                    0 <= i < rev@.len() ==> (#[trigger] rev@[i]).0 == all[all.len() - 1 - i].0
                        && rev@[i].1 == state_of(all[all.len() - 1 - i].1),
                forall|i: int|
                    0 <= i < worker_states@.len() ==> (#[trigger] worker_states@[i]).0 == all[i].0
                        && worker_states@[i].1 == state_of(all[i].1),
            decreases rev.len(),
        {
            let e = rev.pop().unwrap();
            worker_states.push(e);
        }
        let mut queue_depths: Vec<(String, QueueDepthInfo)> = Vec::new();
        while k < queues.len()
            invariant
                k <= queues@.len(),
                queue_depths@.len() == k,
                forall|i: int|
                    0 <= i < k ==> (#[trigger] queue_depths@[i]).0 == queues@[i].0
                        && queue_depths@[i].1.queue_depth == queues@[i].1.queue_depth
                        && queue_depths@[i].1.inflight == queues@[i].1.inflight,
            decreases queues.len() - k,
        {
            let (h, q) = &queues[k];
            queue_depths.push((h.clone(), QueueDepthInfo::from_snapshot(q)));
            k += 1;
        }
        RuntimeSnapshot {
            timestamp,
            worker_states,
            queue_depths,
            accumulator_info: Vec::new(),
            consumer_lag_summary: ConsumerLagSummary::from_committed(committed),
        }
    }
}

/// The snapshot to report: the latest one published by the snapshot task,
/// or an empty one when no task has published yet.
pub fn get_current_snapshot(published: Option<RuntimeSnapshot>) -> (r: RuntimeSnapshot)
    ensures
        published matches Some(s) ==> r == s,
        published is None ==> r.timestamp == 0 && r.worker_states@.len() == 0 && r.queue_depths@.len() == 0
            && r.accumulator_info@.len() == 0 && r.consumer_lag_summary.total_lag == 0
            && r.consumer_lag_summary.per_topic@.len() == 0,
{
    match published {
        Some(s) => s,
        None => RuntimeSnapshot::default(),
    }
}

} // verus!
