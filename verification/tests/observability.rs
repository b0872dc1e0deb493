use kafpy::observability::config::LogFormat;
use kafpy::observability::kafka_metrics::{KafkaMetrics, KafkaMetricsSnapshot, KafkaMetricsTask, KafkaOffset};
use kafpy::observability::labels::MetricLabels;
use kafpy::observability::metrics::{
    ConsumerLagMetrics, DlqMetrics, HandlerMetrics, QueueMetrics, QueueSnapshot, ThroughputMetrics,
};
use kafpy::observability::runtime_snapshot::{
    get_current_snapshot, ConsumerLagSummary, RuntimeSnapshot, WorkerPoolState, WorkerState, WorkerStatus,
};
use kafpy::observability::tracing::{encode_hex, inject_trace_context, split_text};
use kafpy::text_map::TextMap;
use std::time::Duration;

fn pairs(labels: &MetricLabels) -> Vec<(String, String)> {
    labels.as_slice().iter().map(|(k, v)| (k.to_string(), v.to_string())).collect()
}

#[test]
fn metric_labels_sorts_lexicographically() {
    let labels = MetricLabels::new()
        .insert("topic", "my-topic")
        .insert("handler_id", "h1")
        .insert("mode", "BatchSync");
    let slice = labels.as_slice();
    let keys: Vec<&str> = slice.iter().map(|(k, _)| *k).collect();
    assert_eq!(keys, vec!["handler_id", "mode", "topic"]);
}

#[test]
fn metric_labels_empty() {
    let labels = MetricLabels::new();
    assert!(labels.as_slice().is_empty());
}

#[test]
fn metric_labels_equal_keys_keep_insertion_order() {
    let labels = MetricLabels::new().insert("k", "1").insert("a", "x").insert("k", "2");
    assert_eq!(
        pairs(&labels),
        vec![
            ("a".to_string(), "x".to_string()),
            ("k".to_string(), "1".to_string()),
            ("k".to_string(), "2".to_string())
        ]
    );
}

#[test]
fn recorder_labels() {
    let l = ThroughputMetrics::throughput_labels("orders", "h", "SingleSync");
    assert_eq!(
        pairs(&l),
        vec![
            ("handler_id".to_string(), "h".to_string()),
            ("mode".to_string(), "SingleSync".to_string()),
            ("topic".to_string(), "orders".to_string())
        ]
    );
    let l = ConsumerLagMetrics::lag_labels("orders", -3);
    assert_eq!(
        pairs(&l),
        vec![("partition".to_string(), "-3".to_string()), ("topic".to_string(), "orders".to_string())]
    );
    let l = HandlerMetrics::batch_size_labels("h", "t", 12);
    assert_eq!(pairs(&l)[1], ("partition".to_string(), "12".to_string()));
    assert_eq!(pairs(&QueueMetrics::queue_depth_labels("h")), vec![("handler_id".to_string(), "h".to_string())]);
    let l = DlqMetrics::dlq_labels("dlq.orders", "orders");
    assert_eq!(pairs(&l)[0], ("dlq_topic".to_string(), "dlq.orders".to_string()));
    assert_eq!(HandlerMetrics::invocation_labels("h", "t", "m").as_slice().len(), 3);
    assert_eq!(HandlerMetrics::error_labels("h", "timeout").as_slice()[0].0, "error_type");
}

#[test]
fn kafka_metrics_snapshot_default() {
    let snapshot = KafkaMetricsSnapshot::default();
    assert_eq!(snapshot.consumer_lag, 0);
    assert_eq!(snapshot.committed_offset, 0);
}

#[test]
fn kafka_metrics_consumer_lag_calculation() {
    let mut metrics = KafkaMetrics::new(Duration::from_secs(10));
    metrics.update_tp("test-topic", 0, 1000, 800, 800);
    assert_eq!(metrics.consumer_lag("test-topic", 0), 200);
}

#[test]
fn kafka_metrics_records_gauges() {
    let mut metrics = KafkaMetrics::new(Duration::from_secs(10));
    metrics.update_tp("test-topic", 0, 1000, 800, 800);
    let gauges = metrics.gauges();
    assert!(gauges.len() >= 2);
    assert_eq!(gauges[0].name, "kafpy.kafka.consumer_lag");
    assert_eq!(gauges[0].value, 200);
    assert_eq!(gauges[1].name, "kafpy.kafka.committed_offset");
    assert_eq!(gauges[1].value, 800);
}

#[test]
fn assignment_change_counter() {
    let mut metrics = KafkaMetrics::new(Duration::from_secs(10));
    metrics.record_assignment_change();
    metrics.record_assignment_change();
    assert_eq!(metrics.assignment_change_count(), 2);
}

#[test]
fn kafka_metrics_assignment_sizes_per_topic() {
    let mut metrics = KafkaMetrics::new(Duration::from_secs(5));
    metrics.update_tp("a", 0, 10, 5, 5);
    metrics.update_tp("b", 0, 10, 5, 5);
    metrics.update_tp("a", 1, 10, 5, 5);
    metrics.update_tp("a", 0, 20, 5, 5);
    let gauges = metrics.gauges();
    assert_eq!(gauges.len(), 2 * 3 + 2);
    assert_eq!(gauges[0].value, 15);
    assert_eq!(gauges[6].name, "kafpy.kafka.assignment_size");
    assert_eq!(gauges[6].value, 2);
    assert_eq!(gauges[7].value, 1);
    let labels: Vec<(String, String)> = pairs(&gauges[7].labels);
    assert_eq!(labels, vec![("topic".to_string(), "b".to_string())]);
    assert_eq!(metrics.consumer_lag("missing", 0), 0);
    assert_eq!(metrics.poll_interval(), Duration::from_secs(5));
}

#[test]
fn kafka_metrics_lag_saturates() {
    let mut metrics = KafkaMetrics::new(Duration::from_secs(1));
    metrics.update_tp("t", 0, i64::MAX, -10, 0);
    assert_eq!(metrics.consumer_lag("t", 0), i64::MAX);
}

#[test]
fn offset_to_i64_handles_valid_offset() {
    let offset = KafkaOffset::Offset(42);
    assert_eq!(KafkaMetricsTask::offset_to_i64(offset), 42);
}

#[test]
fn offset_to_i64_handles_negative_offset() {
    let offset = KafkaOffset::Offset(-1);
    assert_eq!(KafkaMetricsTask::offset_to_i64(offset), 0);
}

#[test]
fn offset_to_i64_handles_beginning() {
    let offset = KafkaOffset::Beginning;
    assert_eq!(KafkaMetricsTask::offset_to_i64(offset), 0);
}

#[test]
fn poll_updates_from_assignment() {
    let mut metrics = KafkaMetrics::new(Duration::from_secs(10));
    let assignment = vec![("t".to_string(), 0, KafkaOffset::Offset(40)), ("t".to_string(), 1, KafkaOffset::End)];
    let committed = vec![("t".to_string(), 0, 100)];
    KafkaMetricsTask::apply_poll(&mut metrics, &assignment, &committed);
    assert_eq!(metrics.consumer_lag("t", 0), 20);
    assert_eq!(metrics.consumer_lag("t", 1), 0);
    assert_eq!(KafkaMetricsTask::offset_to_i64(KafkaOffset::OffsetTail(7)), 7);
}

#[test]
fn queue_snapshot_starts_empty() {
    let q = QueueSnapshot::new();
    assert_eq!((q.queue_depth, q.inflight), (0, 0));
    assert_eq!(QueueSnapshot::default(), q);
}

#[test]
fn log_format_default_is_simple() {
    assert_eq!(LogFormat::default(), LogFormat::Simple);
}

#[test]
fn worker_pool_state_counts() {
    let mut state = WorkerPoolState::new(3);
    assert_eq!(state.worker_counts(), (3, 0, 0));
    state.set_active(0, "h".to_string(), "t".to_string(), 1, 5);
    state.set_busy(1, "h".to_string());
    assert_eq!(state.worker_counts(), (1, 1, 1));
    state.set_idle(0);
    state.set_idle(7);
    assert_eq!(state.worker_counts(), (3, 0, 1));
    assert_eq!(state.get_states().len(), 4);
}

#[test]
fn lag_summary_groups_by_topic() {
    let offsets = vec![("a".to_string(), 0, 10), ("b".to_string(), 0, 3), ("a".to_string(), 1, 7), ("a".to_string(), 0, 12)];
    let s = ConsumerLagSummary::from_committed(&offsets);
    assert_eq!(s.total_lag, 0);
    assert_eq!(s.per_topic.len(), 2);
    assert_eq!(s.per_topic[0].0, "a");
    let parts = &s.per_topic[0].1.partitions;
    assert_eq!(parts.len(), 2);
    assert_eq!(parts[0].1.committed_offset, 12);
    assert_eq!(parts[1].1.committed_offset, 7);
}

#[test]
fn snapshot_assembly_and_default() {
    let statuses = vec![(0usize, WorkerStatus::Idle), (1usize, WorkerStatus::Busy { handler_id: "h".to_string() })];
    let queues = vec![("h".to_string(), QueueSnapshot { queue_depth: 4, inflight: 2 })];
    let snap = RuntimeSnapshot::assemble(1_700_000_000_000, statuses, &queues, &[]);
    assert_eq!(snap.worker_states.len(), 2);
    assert!(matches!(snap.worker_states[1].1, WorkerState::Busy { .. }));
    assert_eq!(snap.queue_depths[0].1.queue_depth, 4);
    let empty = get_current_snapshot(None);
    assert!(empty.worker_states.is_empty());
    assert_eq!(empty.timestamp, 0);
    let kept = get_current_snapshot(Some(snap));
    assert_eq!(kept.worker_states.len(), 2);
}

#[test]
fn trace_context_extracted_from_traceparent() {
    let mut headers = TextMap::new();
    headers.insert("traceparent".to_string(), "00-abc-def-01".to_string());
    headers.insert("tracestate".to_string(), "k=v".to_string());
    let mut out = TextMap::new();
    inject_trace_context(&headers, &mut out);
    assert_eq!(out.get("trace_id").map(|s| s.as_str()), Some("abc"));
    assert_eq!(out.get("span_id").map(|s| s.as_str()), Some("def"));
    assert_eq!(out.get("trace_flags").map(|s| s.as_str()), Some("01"));
    assert_eq!(out.get("tracestate").map(|s| s.as_str()), Some("k=v"));
}

#[test]
fn malformed_traceparent_is_ignored() {
    let mut headers = TextMap::new();
    headers.insert("traceparent".to_string(), "00-abc".to_string());
    let mut out = TextMap::new();
    inject_trace_context(&headers, &mut out);
    assert_eq!(out.len(), 0);
}

#[test]
fn hex_and_split_helpers() {
    assert_eq!(encode_hex(&[0x00, 0xff, 0x1a]), "00ff1a");
    assert_eq!(split_text("a-b--c", '-'), vec!["a", "b", "", "c"]);
}

#[test]
fn snapshot_clone_keeps_every_field() {
    let statuses = vec![(3usize, WorkerStatus::Active {
        handler_id: "h".to_string(),
        topic: "t".to_string(),
        partition: 2,
        offset: 40,
    })];
    let queues = vec![("h".to_string(), QueueSnapshot { queue_depth: 1, inflight: 1 })];
    let mut snap = RuntimeSnapshot::assemble(1_700_000_000_000, statuses, &queues, &[]);
    snap.consumer_lag_summary = ConsumerLagSummary::from_committed(&[("t".to_string(), 2, 39)]);
    let copy = snap.clone();
    assert_eq!(copy.timestamp, snap.timestamp);
    assert_eq!(copy.worker_states.len(), 1);
    assert_eq!(copy.worker_states[0].0, 3);
    assert!(matches!(&copy.worker_states[0].1, WorkerState::Active { offset: 40, partition: 2, .. }));
    assert_eq!(copy.queue_depths[0].0, "h");
    assert_eq!(copy.consumer_lag_summary.per_topic[0].0, "t");
    assert_eq!(copy.consumer_lag_summary.per_topic[0].1.partitions[0].1.committed_offset, 39);
}
