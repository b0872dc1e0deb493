//! Kafka-level metrics: per topic-partition offsets and lag, per-topic
//! assignment sizes, and the count of assignment changes. The recorder
//! computes the gauge values; a metrics sink outside the library records them.

use vstd::prelude::*;
use std::time::Duration;
use crate::observability::labels::{has_label, keys_sorted, MetricLabels};
use crate::seqs::{first_index, lemma_first_index_at, lemma_first_index_none};
use crate::text::{i64_text, signed_decimal, str_eq};

verus! {

/// Per topic-partition metric values.
#[derive(Debug, Clone, Copy, PartialEq, Eq, Structural)]
pub struct KafkaMetricsSnapshot {
    /// Consumer lag: highwater minus position.
    pub consumer_lag: u64,
    /// Last committed offset.
    pub committed_offset: u64,
    /// Highwater mark.
    pub highwater: u64,
    /// Current consumer position (next offset to fetch).
    pub position: u64,
}

impl KafkaMetricsSnapshot {
    /// A snapshot with every value 0.
    pub fn new() -> (r: Self)
        ensures
            r.consumer_lag == 0,
            r.committed_offset == 0,
            r.highwater == 0,
            r.position == 0,
    {
        KafkaMetricsSnapshot { consumer_lag: 0, committed_offset: 0, highwater: 0, position: 0 }
    }
}

impl Default for KafkaMetricsSnapshot {
    fn default() -> (r: Self)
        ensures
            r.consumer_lag == 0,
            r.committed_offset == 0,
            r.highwater == 0,
            r.position == 0,
    {
        KafkaMetricsSnapshot::new()
    }
}

/// `a - b` clamped to the range of `i64`, as `i64::saturating_sub` computes it.
pub open spec fn saturating_sub_i64(a: i64, b: i64) -> i64 {
    if a - b > i64::MAX {
        i64::MAX
    } else if a - b < i64::MIN {
        i64::MIN
    } else {
        (a - b) as i64
    }
}

/// Saturating subtraction of two `i64`.
pub fn sub_saturating(a: i64, b: i64) -> (r: i64)
    ensures
        r == saturating_sub_i64(a, b),
{
    match a.checked_sub(b) {
        Some(d) => d,
        None => if b < 0 {
            i64::MAX
        } else {
            i64::MIN
        },
    }
}

/// A topic-partition's metrics as values.
pub type TpMetrics = (Seq<char>, i32, KafkaMetricsSnapshot);

pub open spec fn tp_pred(topic: Seq<char>, partition: i32) -> spec_fn(TpMetrics) -> bool {
    |e: TpMetrics| e.0 == topic && e.1 == partition
}

pub open spec fn distinct_tps(s: Seq<TpMetrics>) -> bool {
    forall|i: int, j: int|
        0 <= i < j < s.len() ==> !((#[trigger] s[i]).0 == (#[trigger] s[j]).0 && s[i].1 == s[j].1)
}

/// The snapshot stored after an update with these raw values: each offset
/// stored as its unsigned 64-bit pattern, and the lag the saturating
/// difference of highwater and position.
pub open spec fn updated_snapshot(highwater: i64, position: i64, committed_offset: i64) -> KafkaMetricsSnapshot {
    KafkaMetricsSnapshot {
        consumer_lag: saturating_sub_i64(highwater, position) as u64,
        committed_offset: committed_offset as u64,
        highwater: highwater as u64,
        position: position as u64,
    }
}


/// The tracked metrics after an update of one topic-partition: its entry is
/// replaced, or appended when it was not tracked.
pub open spec fn tps_after_update(
    tps: Seq<TpMetrics>,
    topic: Seq<char>,
    partition: i32,
    highwater: i64,
    position: i64,
    committed_offset: i64,
) -> Seq<TpMetrics> {
    match first_index(tps, tp_pred(topic, partition)) {
        Some(i) => tps.update(i, (topic, partition, updated_snapshot(highwater, position, committed_offset))),
        None => tps.push((topic, partition, updated_snapshot(highwater, position, committed_offset))),
    }
}

/// `e` records what an update of `topic`/`partition` was given: the
/// highwater, position and committed offset as they were passed (as
/// unsigned 64-bit patterns), and as lag their difference whenever it fits.
pub open spec fn records_update(
    e: TpMetrics,
    topic: Seq<char>,
    partition: i32,
    highwater: i64,
    position: i64,
    committed_offset: i64,
) -> bool {
    &&& e.0 == topic
    &&& e.1 == partition
    &&& e.2.highwater == highwater as u64
    &&& e.2.position == position as u64
    &&& e.2.committed_offset == committed_offset as u64
    &&& i64::MIN <= highwater - position <= i64::MAX ==> e.2.consumer_lag == (highwater - position) as u64
}

/// Reading back an update: afterwards the topic-partition has an entry
/// holding exactly the values passed (committed offset as committed offset,
/// position as position), every other topic-partition's entry is as it was,
/// and at most one entry is added.
pub proof fn law_update_reads_back(
    tps: Seq<TpMetrics>,
    topic: Seq<char>,
    partition: i32,
    highwater: i64,
    position: i64,
    committed_offset: i64,
)
    ensures
        ({
            let after = tps_after_update(tps, topic, partition, highwater, position, committed_offset);
            &&& exists|i: int|
                0 <= i < after.len() && records_update(
                    #[trigger] after[i],
                    topic,
                    partition,
                    highwater,
                    position,
                    committed_offset,
                )
            &&& forall|j: int|
                0 <= j < tps.len() && !((#[trigger] tps[j]).0 == topic && tps[j].1 == partition) ==> after[j]
                    == tps[j]
            &&& after.len() == tps.len() || after.len() == tps.len() + 1
        }),
{
    crate::seqs::lemma_first_index_spec(tps, tp_pred(topic, partition));
    let after = tps_after_update(tps, topic, partition, highwater, position, committed_offset);
    match first_index(tps, tp_pred(topic, partition)) {
        Some(i) => {
            assert(records_update(after[i], topic, partition, highwater, position, committed_offset));
        },
        None => {
            assert(records_update(after[tps.len() as int], topic, partition, highwater, position, committed_offset));
        },
    }
}

/// A gauge value to record, with its labels.
#[derive(Debug)]
pub struct GaugeSample {
    pub name: &'static str,
    pub value: u64,
    pub labels: MetricLabels,
}


/// The distinct topics of the tracked topic-partitions, in order of first
/// appearance.
pub open spec fn topics_in_order(tps: Seq<TpMetrics>) -> Seq<Seq<char>>
    decreases tps.len(),
{
    if tps.len() == 0 {
        seq![]
    } else {
        let prev = topics_in_order(tps.drop_last());
        if prev.contains(tps.last().0) {
            prev
        } else {
            prev.push(tps.last().0)
        }
    }
}

/// The number of tracked partitions of a topic.
pub open spec fn topic_count(tps: Seq<TpMetrics>, topic: Seq<char>) -> nat
    decreases tps.len(),
{
    if tps.len() == 0 {
        0
    } else {
        topic_count(tps.drop_last(), topic) + if tps.last().0 == topic {
            1nat
        } else {
            0nat
        }
    }
}

/// A gauge sample carries this name and value, and exactly the labels
/// `topic` and, when given, `partition`.
pub open spec fn gauge_is(
    g: GaugeSample,
    name: Seq<char>,
    value: u64,
    topic: Seq<char>,
    partition: Option<i32>,
) -> bool {
    &&& g.name@ == name
    &&& g.value == value
    &&& keys_sorted(g.labels@)
    &&& has_label(g.labels@, "topic"@, topic)
    &&& match partition {
        Some(p) => g.labels@.len() == 2 && has_label(g.labels@, "partition"@, signed_decimal(p as int)),
        None => g.labels@.len() == 1,
    }
}

/// The gauges of one poll: for each tracked topic-partition in order, its
/// lag and its committed offset; then for each topic in order of first
/// appearance, its number of tracked partitions.
pub open spec fn gauges_ok(tps: Seq<TpMetrics>, r: Seq<GaugeSample>) -> bool {
    let topics = topics_in_order(tps);
    &&& r.len() == 2 * tps.len() + topics.len()
    &&& forall|i: int|
        0 <= i < tps.len() ==> gauge_is(
            #[trigger] r[2 * i],
            "kafpy.kafka.consumer_lag"@,
            tps[i].2.consumer_lag,
            tps[i].0,
            Some(tps[i].1),
        ) && gauge_is(
            r[2 * i + 1],
            "kafpy.kafka.committed_offset"@,
            tps[i].2.committed_offset,
            tps[i].0,
            Some(tps[i].1),
        )
    &&& forall|j: int|
        0 <= j < topics.len() ==> gauge_is(
            #[trigger] r[2 * tps.len() + j],
            "kafpy.kafka.assignment_size"@,
            topic_count(tps, topics[j]) as u64,
            topics[j],
            None,
        )
}

fn tp_gauge(name: &'static str, value: u64, topic: &str, partition: i32) -> (g: GaugeSample)
    ensures
        gauge_is(g, name@, value, topic@, Some(partition)),
{
    let p = i64_text(partition as i64);
    let labels = MetricLabels::new().insert("topic", topic).insert("partition", p.as_str());
    GaugeSample { name, value, labels }
}

proof fn lemma_count_absent(tps: Seq<TpMetrics>, topic: Seq<char>)
    requires
        !topics_in_order(tps).contains(topic),
    ensures
        topic_count(tps, topic) == 0,
    decreases tps.len(),
{
    if tps.len() > 0 {
        let prev = topics_in_order(tps.drop_last());
        if !prev.contains(tps.last().0) {
            assert(topics_in_order(tps)[prev.len() as int] == tps.last().0);
        }
        assert forall|x: Seq<char>| prev.contains(x) implies topics_in_order(tps).contains(x) by {
            let m = choose|m: int| 0 <= m < prev.len() && prev[m] == x;
            assert(topics_in_order(tps)[m] == x);
        }
        lemma_count_absent(tps.drop_last(), topic);
    }
}

proof fn lemma_topics_distinct(tps: Seq<TpMetrics>)
    ensures
        forall|a: int, b: int|
            0 <= a < b < topics_in_order(tps).len() ==> topics_in_order(tps)[a] != topics_in_order(
                tps,
            )[b],
    decreases tps.len(),
{
    if tps.len() > 0 {
        lemma_topics_distinct(tps.drop_last());
        let prev = topics_in_order(tps.drop_last());
        if !prev.contains(tps.last().0) {
            assert forall|a: int| 0 <= a < prev.len() implies prev[a] != tps.last().0 by {
                if prev[a] == tps.last().0 {
                    assert(prev.contains(tps.last().0));
                }
            }
        }
    }
}

/// Kafka-level metrics recorder.
#[derive(Debug)]
pub struct KafkaMetrics {
    tp_metrics: Vec<(String, i32, KafkaMetricsSnapshot)>,
    poll_interval: Duration,
    assignment_changes: u64,
}

impl KafkaMetrics {
    #[verifier::type_invariant]
    spec fn inv(&self) -> bool {
        distinct_tps(self.tps())
    }

    /// The tracked topic-partitions and their metrics, in order of first update.
    pub closed spec fn tps(&self) -> Seq<TpMetrics> {
        self.tp_metrics@.map_values(|e: (String, i32, KafkaMetricsSnapshot)| (e.0@, e.1, e.2))
    }

    pub closed spec fn spec_poll_interval(&self) -> Duration {
        self.poll_interval
    }

    pub closed spec fn spec_assignment_changes(&self) -> u64 {
        self.assignment_changes
    }

    /// A recorder tracking nothing yet, polled at `poll_interval`.
    pub fn new(poll_interval: Duration) -> (r: Self)
        ensures
            r.tps().len() == 0,
            r.spec_poll_interval() == poll_interval,
            r.spec_assignment_changes() == 0,
    {
        let r = KafkaMetrics { tp_metrics: Vec::new(), poll_interval, assignment_changes: 0 };
        assert(r.tps() =~= Seq::<TpMetrics>::empty());
        r
    }

    /// The polling interval.
    pub fn poll_interval(&self) -> (r: Duration)
        ensures
            r == self.spec_poll_interval(),
    {
        self.poll_interval
    }

    fn position_of(&self, topic: &str, partition: i32) -> (r: Option<usize>)
        ensures
            match r {
                Some(i) => i < self.tps().len() && first_index(self.tps(), tp_pred(topic@, partition))
                    == Some(i as int),
                None => first_index(self.tps(), tp_pred(topic@, partition)) is None,
            },
    {
        let mut i: usize = 0;
        while i < self.tp_metrics.len()
            invariant
                i <= self.tp_metrics@.len(),
                forall|j: int| 0 <= j < i ==> !tp_pred(topic@, partition)(#[trigger] self.tps()[j]),
            decreases self.tp_metrics.len() - i,
        {
            if self.tp_metrics[i].1 == partition && str_eq(self.tp_metrics[i].0.as_str(), topic) {
                proof {
                    lemma_first_index_at(self.tps(), tp_pred(topic@, partition), i as int);
                }
                return Some(i);
            }
            i += 1;
        }
        proof {
            lemma_first_index_none(self.tps(), tp_pred(topic@, partition));
        }
        None
    }

    /// Updates a topic-partition's metrics, tracking it if it is new: the
    /// highwater, position and committed offset are stored, and the lag is
    /// highwater minus position, saturating.
    pub fn update_tp(
        &mut self,
        topic: &str,
        partition: i32,
        highwater: i64,
        position: i64,
        committed_offset: i64,
    )
        ensures
            final(self).tps() == tps_after_update(
                old(self).tps(),
                topic@,
                partition,
                highwater,
                position,
                committed_offset,
            ),
            exists|i: int|
                0 <= i < final(self).tps().len() && records_update(
                    #[trigger] final(self).tps()[i],
                    topic@,
                    partition,
                    highwater,
                    position,
                    committed_offset,
                ),
            forall|j: int|
                0 <= j < old(self).tps().len() && !((#[trigger] old(self).tps()[j]).0 == topic@ && old(
                    self,
                ).tps()[j].1 == partition) ==> final(self).tps()[j] == old(self).tps()[j],
            final(self).spec_poll_interval() == old(self).spec_poll_interval(),
            final(self).spec_assignment_changes() == old(self).spec_assignment_changes(),
    {
        proof {
            use_type_invariant(&*self);
            law_update_reads_back(old(self).tps(), topic@, partition, highwater, position, committed_offset);
        }
        let lag = sub_saturating(highwater, position);
        let snapshot = KafkaMetricsSnapshot {
            consumer_lag: lag as u64,
            committed_offset: committed_offset as u64,
            highwater: highwater as u64,
            position: position as u64,
        };
        let ghost old_tps = self.tps();
        let ghost entry: TpMetrics = (topic@, partition, snapshot);
        let mut entries: Vec<(String, i32, KafkaMetricsSnapshot)> = Vec::new();
        std::mem::swap(&mut entries, &mut self.tp_metrics);
        match self.position_of_in(&entries, topic, partition) {
            Some(i) => {
                entries.set(i, (String::from_str(topic), partition, snapshot));
                proof {
                    assert(entries@.map_values(
                        |e: (String, i32, KafkaMetricsSnapshot)| (e.0@, e.1, e.2),
                    ) =~= old_tps.update(i as int, entry));
                    let new = old_tps.update(i as int, entry);
                    crate::seqs::lemma_first_index_spec(old_tps, tp_pred(topic@, partition));
                    assert(old_tps[i as int].0 == topic@ && old_tps[i as int].1 == partition);
                    assert forall|a: int, b: int| 0 <= a < b < new.len() implies !((#[trigger] new[a]).0
                        == (#[trigger] new[b]).0 && new[a].1 == new[b].1) by {
                        if a == i as int {
                            assert(new[b] == old_tps[b]);
                            assert(!(old_tps[a].0 == old_tps[b].0 && old_tps[a].1 == old_tps[b].1));
                        } else if b == i as int {
                            assert(new[a] == old_tps[a]);
                            assert(!tp_pred(topic@, partition)(old_tps[a]));
                        } else {
                            assert(new[a] == old_tps[a] && new[b] == old_tps[b]);
                        }
                    }
                }
            },
            None => {
                entries.push((String::from_str(topic), partition, snapshot));
                proof {
                    assert(entries@.map_values(
                        |e: (String, i32, KafkaMetricsSnapshot)| (e.0@, e.1, e.2),
                    ) =~= old_tps.push(entry));
                    crate::seqs::lemma_first_index_spec(old_tps, tp_pred(topic@, partition));
                    let new = old_tps.push(entry);
                    assert forall|a: int, b: int| 0 <= a < b < new.len() implies !((#[trigger] new[a]).0
                        == (#[trigger] new[b]).0 && new[a].1 == new[b].1) by {
                        if b == old_tps.len() {
                            assert(!tp_pred(topic@, partition)(old_tps[a]));
                        }
                    }
                }
            },
        }
        self.tp_metrics = entries;
    }

    fn position_of_in(
        &self,
        entries: &Vec<(String, i32, KafkaMetricsSnapshot)>,
        topic: &str,
        partition: i32,
    ) -> (r: Option<usize>)
        ensures
            match r {
                Some(i) => i < entries@.len() && first_index(
                    entries@.map_values(|e: (String, i32, KafkaMetricsSnapshot)| (e.0@, e.1, e.2)),
                    tp_pred(topic@, partition),
                ) == Some(i as int),
                None => first_index(
                    entries@.map_values(|e: (String, i32, KafkaMetricsSnapshot)| (e.0@, e.1, e.2)),
                    tp_pred(topic@, partition),
                ) is None,
            },
    {
        let ghost view = entries@.map_values(|e: (String, i32, KafkaMetricsSnapshot)| (e.0@, e.1, e.2));
        let mut i: usize = 0;
        while i < entries.len()
            invariant
                i <= entries@.len(),
                view == entries@.map_values(|e: (String, i32, KafkaMetricsSnapshot)| (e.0@, e.1, e.2)),
                forall|j: int| 0 <= j < i ==> !tp_pred(topic@, partition)(#[trigger] view[j]),
            decreases entries.len() - i,
        {
            if entries[i].1 == partition && str_eq(entries[i].0.as_str(), topic) {
                proof {
                    lemma_first_index_at(view, tp_pred(topic@, partition), i as int);
                }
                return Some(i);
            }
            i += 1;
        }
        proof {
            lemma_first_index_none(view, tp_pred(topic@, partition));
        }
        None
    }

    /// The consumer lag of a topic-partition (its stored bits read as a
    /// signed number), or 0 when it is not tracked.
    pub fn consumer_lag(&self, topic: &str, partition: i32) -> (r: i64)
        ensures
            r == match first_index(self.tps(), tp_pred(topic@, partition)) {
                Some(i) => self.tps()[i].2.consumer_lag as i64,
                None => 0,
            },
    {
        match self.position_of(topic, partition) {
            Some(i) => self.tp_metrics[i].2.consumer_lag as i64,
            None => 0,
        }
    }


    /// The gauges to record on a poll: per topic-partition lag and committed
    /// offset, then per topic the number of tracked partitions.
    pub fn gauges(&self) -> (r: Vec<GaugeSample>)
        ensures
            gauges_ok(self.tps(), r@),
    {
        let ghost tps = self.tps();
        let mut out: Vec<GaugeSample> = Vec::new();
        let mut topics: Vec<(&str, u64)> = Vec::new();
        let mut i: usize = 0;
        while i < self.tp_metrics.len()
            invariant
                i <= tps.len(),
                tps == self.tps(),
                out@.len() == 2 * i,
                forall|k: int|
                    0 <= k < i ==> gauge_is(
                        #[trigger] out@[2 * k],
                        "kafpy.kafka.consumer_lag"@,
                        tps[k].2.consumer_lag,
                        tps[k].0,
                        Some(tps[k].1),
                    ) && gauge_is(
                        out@[2 * k + 1],
                        "kafpy.kafka.committed_offset"@,
                        tps[k].2.committed_offset,
                        tps[k].0,
                        Some(tps[k].1),
                    ),
                topics@.len() == topics_in_order(tps.subrange(0, i as int)).len(),
                forall|j: int|
                    0 <= j < topics@.len() ==> (#[trigger] topics@[j]).0@ == topics_in_order(
                        tps.subrange(0, i as int),
                    )[j] && topics@[j].1 == topic_count(tps.subrange(0, i as int), topics@[j].0@),
                forall|j: int| 0 <= j < topics@.len() ==> #[trigger] topics@[j].1 <= i,
            decreases tps.len() - i,
        {
            let (topic, partition, snap) = &self.tp_metrics[i];
            let ghost prefix = tps.subrange(0, i as int);
            let ghost next = tps.subrange(0, i + 1);
            proof {
                assert(next.drop_last() =~= prefix);
                assert(next.last() == tps[i as int]);
                assert(tps[i as int] == (topic@, *partition, *snap));
                lemma_topics_distinct(prefix);
            }
            let ghost before = out@;
            out.push(tp_gauge("kafpy.kafka.consumer_lag", snap.consumer_lag, topic.as_str(), *partition));
            out.push(tp_gauge("kafpy.kafka.committed_offset", snap.committed_offset, topic.as_str(), *partition));
            proof {
                assert forall|k: int| 0 <= k < i + 1 implies gauge_is(
                    #[trigger] out@[2 * k],
                    "kafpy.kafka.consumer_lag"@,
                    tps[k].2.consumer_lag,
                    tps[k].0,
                    Some(tps[k].1),
                ) && gauge_is(
                    out@[2 * k + 1],
                    "kafpy.kafka.committed_offset"@,
                    tps[k].2.committed_offset,
                    tps[k].0,
                    Some(tps[k].1),
                ) by {
                    if k < i {
                        assert(out@[2 * k] == before[2 * k]);
                        assert(out@[2 * k + 1] == before[2 * k + 1]);
                    }
                }
            }
            let mut j: usize = 0;
            while j < topics.len() && !str_eq(topics[j].0, topic.as_str())
                invariant
                    j <= topics@.len(),
                    forall|m: int| 0 <= m < j ==> (#[trigger] topics@[m]).0@ != topic@,
                decreases topics.len() - j,
            {
                j += 1;
            }
            let ghost tb = topics@;
            if j < topics.len() {
                let (t, c) = topics[j];
                topics.set(j, (t, c + 1));
                proof {
                    assert(topics_in_order(prefix)[j as int] == topic@);
                    assert(topics_in_order(prefix).contains(topic@));
                    assert(topics_in_order(next) == topics_in_order(prefix));
                    assert forall|m: int| 0 <= m < topics@.len() implies (#[trigger] topics@[m]).0@
                        == topics_in_order(next)[m] && topics@[m].1 == topic_count(next, topics@[m].0@) by {
                        if m != j {
                            assert(topics@[m] == tb[m]);
                            assert(topics_in_order(prefix)[m] != topics_in_order(prefix)[j as int]);
                        }
                    }
                }
            } else {
                topics.push((topic.as_str(), 1));
                proof {
                    assert(!topics_in_order(prefix).contains(topic@)) by {
                        if topics_in_order(prefix).contains(topic@) {
                            let m = choose|m: int| 0 <= m < topics_in_order(prefix).len() && topics_in_order(prefix)[m] == topic@;
                            assert(tb[m].0@ == topic@);
                        }
                    }
                    assert(topics_in_order(next) == topics_in_order(prefix).push(topic@));
                    assert(topic_count(prefix, topic@) == 0) by {
                        lemma_count_absent(prefix, topic@);
                    }
                    assert forall|m: int| 0 <= m < topics@.len() implies (#[trigger] topics@[m]).0@
                        == topics_in_order(next)[m] && topics@[m].1 == topic_count(next, topics@[m].0@) by {
                        if m < tb.len() {
                            assert(topics@[m] == tb[m]);
                            assert(topics_in_order(prefix)[m] != topic@);
                        }
                    }
                }
            }
            i += 1;
        }
        proof {
            assert(tps.subrange(0, tps.len() as int) =~= tps);
        }
        let ghost topics_spec = topics_in_order(tps);
        let mut j: usize = 0;
        while j < topics.len()
            invariant
                j <= topics@.len(),
                topics@.len() == topics_spec.len(),
                topics_spec == topics_in_order(tps),
                forall|m: int|
                    0 <= m < topics@.len() ==> (#[trigger] topics@[m]).0@ == topics_spec[m]
                        && topics@[m].1 == topic_count(tps, topics@[m].0@),
                out@.len() == 2 * tps.len() + j,
                forall|k: int|
                    0 <= k < tps.len() ==> gauge_is(
                        #[trigger] out@[2 * k],
                        "kafpy.kafka.consumer_lag"@,
                        tps[k].2.consumer_lag,
                        tps[k].0,
                        Some(tps[k].1),
                    ) && gauge_is(
                        out@[2 * k + 1],
                        "kafpy.kafka.committed_offset"@,
                        tps[k].2.committed_offset,
                        tps[k].0,
                        Some(tps[k].1),
                    ),
                forall|m: int|
                    0 <= m < j ==> gauge_is(
                        #[trigger] out@[2 * tps.len() + m],
                        "kafpy.kafka.assignment_size"@,
                        topic_count(tps, topics_spec[m]) as u64,
                        topics_spec[m],
                        None,
                    ),
            decreases topics.len() - j,
        {
            let (t, c) = topics[j];
            let labels = MetricLabels::new().insert("topic", t);
            let ghost before = out@;
            out.push(GaugeSample { name: "kafpy.kafka.assignment_size", value: c, labels });
            proof {
                assert forall|k: int| 0 <= k < tps.len() implies gauge_is(
                    #[trigger] out@[2 * k],
                    "kafpy.kafka.consumer_lag"@,
                    tps[k].2.consumer_lag,
                    tps[k].0,
                    Some(tps[k].1),
                ) && gauge_is(
                    out@[2 * k + 1],
                    "kafpy.kafka.committed_offset"@,
                    tps[k].2.committed_offset,
                    tps[k].0,
                    Some(tps[k].1),
                ) by {
                    assert(out@[2 * k] == before[2 * k]);
                    assert(out@[2 * k + 1] == before[2 * k + 1]);
                }
                assert forall|m: int| 0 <= m < j + 1 implies gauge_is(
                    #[trigger] out@[2 * tps.len() + m],
                    "kafpy.kafka.assignment_size"@,
                    topic_count(tps, topics_spec[m]) as u64,
                    topics_spec[m],
                    None,
                ) by {
                    if m < j {
                        assert(out@[2 * tps.len() + m] == before[2 * tps.len() + m]);
                    }
                }
            }
            j += 1;
        }
        out
    }

    /// Records an assignment change (the count wraps around at `u64::MAX`).
    pub fn record_assignment_change(&mut self)
        ensures
            final(self).spec_assignment_changes() == (if old(self).spec_assignment_changes() == u64::MAX {
                0
            } else {
                old(self).spec_assignment_changes() + 1
            }),
            final(self).tps() == old(self).tps(),
            final(self).spec_poll_interval() == old(self).spec_poll_interval(),
    {
        proof {
            use_type_invariant(&*self);
        }
        self.assignment_changes = self.assignment_changes.wrapping_add(1);
    }

    /// The number of assignment changes recorded.
    pub fn assignment_change_count(&self) -> (r: u64)
        ensures
            r == self.spec_assignment_changes(),
    {
        self.assignment_changes
    }
}

/// A consumer position as rdkafka reports it.
#[derive(Debug, Clone, Copy, PartialEq, Eq, Structural)]
pub enum KafkaOffset {
    Beginning,
    End,
    Stored,
    Invalid,
    Offset(i64),
    OffsetTail(i64),
}

/// The position an offset stands for: a concrete or tail offset, not below
/// 0; 0 for the logical offsets (not yet positioned).
pub open spec fn offset_position_spec(offset: KafkaOffset) -> i64 {
    match offset {
        KafkaOffset::Offset(o) => if o < 0 { 0 } else { o },
        KafkaOffset::OffsetTail(o) => if o < 0 { 0 } else { o },
        _ => 0,
    }
}

/// The committed offset recorded for a topic-partition, 0 when none is.
pub open spec fn committed_for(committed: Seq<(String, i32, i64)>, topic: Seq<char>, partition: i32) -> i64
    decreases committed.len(),
{
    if committed.len() == 0 {
        0
    } else if committed[0].0@ == topic && committed[0].1 == partition {
        committed[0].2
    } else {
        committed_for(committed.drop_first(), topic, partition)
    }
}

/// The tracked metrics after a poll of the assignment: each assigned
/// topic-partition in turn is updated with its position, its committed
/// offset, and (in the highwater slot) the committed offset minus the
/// position, saturating.
pub open spec fn tps_after_poll(
    tps: Seq<TpMetrics>,
    assignment: Seq<(String, i32, KafkaOffset)>,
    committed: Seq<(String, i32, i64)>,
) -> Seq<TpMetrics>
    decreases assignment.len(),
{
    if assignment.len() == 0 {
        tps
    } else {
        let prev = tps_after_poll(tps, assignment.drop_last(), committed);
        let (t, p, o) = assignment.last();
        let position = offset_position_spec(o);
        let c = committed_for(committed, t@, p);
        tps_after_update(prev, t@, p, saturating_sub_i64(c, position), position, c)
    }
}

/// The background poll that refreshes the Kafka metrics.
#[derive(Debug, Clone, Copy, Default)]
pub struct KafkaMetricsTask;

impl KafkaMetricsTask {
    /// The position an offset stands for: a concrete or tail offset, not
    /// below 0; 0 for the logical offsets.
    pub fn offset_to_i64(offset: KafkaOffset) -> (r: i64)
        ensures
            r == offset_position_spec(offset),
    {
        match offset {
            KafkaOffset::Offset(o) => if o < 0 { 0 } else { o },
            KafkaOffset::OffsetTail(o) => if o < 0 { 0 } else { o },
            _ => 0,
        }
    }

    fn committed_offset(committed: &[(String, i32, i64)], topic: &str, partition: i32) -> (r: i64)
        ensures
            r == committed_for(committed@, topic@, partition),
    {
        proof {
            assert(committed@.subrange(0, committed@.len() as int) =~= committed@);
        }
        let mut i: usize = 0;
        while i < committed.len()
            invariant
                i <= committed@.len(),
                committed_for(committed@.subrange(i as int, committed@.len() as int), topic@, partition)
                    == committed_for(committed@, topic@, partition),
            decreases committed.len() - i,
        {
            let ghost rest = committed@.subrange(i as int, committed@.len() as int);
            proof {
                assert(rest.drop_first() =~= committed@.subrange(i + 1, committed@.len() as int));
                assert(rest[0] == committed@[i as int]);
            }
            if committed[i].1 == partition && str_eq(committed[i].0.as_str(), topic) {
                return committed[i].2;
            }
            i += 1;
        }
        0
    }

    /// Applies one poll: updates every assigned topic-partition from its
    /// position and its committed offset.
    pub fn apply_poll(
        metrics: &mut KafkaMetrics,
        assignment: &[(String, i32, KafkaOffset)],
        committed: &[(String, i32, i64)],
    )
        ensures
            final(metrics).tps() == tps_after_poll(old(metrics).tps(), assignment@, committed@),
            final(metrics).spec_poll_interval() == old(metrics).spec_poll_interval(),
            final(metrics).spec_assignment_changes() == old(metrics).spec_assignment_changes(),
    {
        let ghost start = metrics.tps();
        let mut i: usize = 0;
        while i < assignment.len()
            invariant
                i <= assignment@.len(),
                metrics.tps() == tps_after_poll(start, assignment@.subrange(0, i as int), committed@),
                metrics.spec_poll_interval() == old(metrics).spec_poll_interval(),
                metrics.spec_assignment_changes() == old(metrics).spec_assignment_changes(),
            decreases assignment.len() - i,
        {
            proof {
                assert(assignment@.subrange(0, i + 1).drop_last() =~= assignment@.subrange(0, i as int));
            }
            let (topic, partition, offset) = &assignment[i];
            let position = Self::offset_to_i64(*offset);
            let c = Self::committed_offset(committed, topic.as_str(), *partition);
            let lag = sub_saturating(c, position);
            metrics.update_tp(topic.as_str(), *partition, lag, position, c);
            i += 1;
        }
        proof {
            assert(assignment@.subrange(0, assignment@.len() as int) =~= assignment@);
        }
    }
}

} // verus!
