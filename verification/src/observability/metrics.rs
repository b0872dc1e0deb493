//! The metric recorders' labels and the queue snapshot. The recorders only
//! decide the labels of what they record; the values reach a metrics sink
//! outside the library.

use vstd::prelude::*;
use crate::observability::labels::{has_label, keys_sorted, MetricLabels};
use crate::text::{i64_text, signed_decimal};

verus! {

/// Handler invocation, latency, error and batch-size metrics.
#[derive(Debug, Clone, Copy, Default)]
pub struct HandlerMetrics;

/// Message throughput metrics.
#[derive(Debug, Clone, Copy, Default)]
pub struct ThroughputMetrics;

/// Consumer lag metrics.
#[derive(Debug, Clone, Copy, Default)]
pub struct ConsumerLagMetrics;

/// Queue depth metrics.
#[derive(Debug, Clone, Copy, Default)]
pub struct QueueMetrics;

/// Dead-letter queue metrics.
#[derive(Debug, Clone, Copy, Default)]
pub struct DlqMetrics;

/// A metrics sink that discards every recording.
#[derive(Debug, Clone, Copy, Default)]
pub struct NoopSink;

impl HandlerMetrics {
    /// Labels of a handler invocation: handler id, topic and handler mode.
    pub fn invocation_labels(handler_id: &str, topic: &str, mode: &str) -> (r: MetricLabels)
        ensures
            keys_sorted(r@),
            r@.len() == 3,
            has_label(r@, "handler_id"@, handler_id@),
            has_label(r@, "topic"@, topic@),
            has_label(r@, "mode"@, mode@),
    {
        MetricLabels::new().insert("handler_id", handler_id).insert("topic", topic).insert(
            "mode",
            mode,
        )
    }

    /// Labels of a handler error: handler id and error type.
    pub fn error_labels(handler_id: &str, error_type: &str) -> (r: MetricLabels)
        ensures
            keys_sorted(r@),
            r@.len() == 2,
            has_label(r@, "handler_id"@, handler_id@),
            has_label(r@, "error_type"@, error_type@),
    {
        MetricLabels::new().insert("handler_id", handler_id).insert("error_type", error_type)
    }

    /// Labels of a batch size: handler id, topic and partition in decimal.
    pub fn batch_size_labels(handler_id: &str, topic: &str, partition: i32) -> (r: MetricLabels)
        ensures
            keys_sorted(r@),
            r@.len() == 3,
            has_label(r@, "handler_id"@, handler_id@),
            has_label(r@, "topic"@, topic@),
            has_label(r@, "partition"@, signed_decimal(partition as int)),
    {
        let p = i64_text(partition as i64);
        MetricLabels::new().insert("handler_id", handler_id).insert("topic", topic).insert(
            "partition",
            p.as_str(),
        )
    }
}

impl ThroughputMetrics {
    /// Labels of a delivered message: topic, handler id and handler mode.
    pub fn throughput_labels(topic: &str, handler_id: &str, mode: &str) -> (r: MetricLabels)
        ensures
            keys_sorted(r@),
            r@.len() == 3,
            has_label(r@, "topic"@, topic@),
            has_label(r@, "handler_id"@, handler_id@),
            has_label(r@, "mode"@, mode@),
    {
        MetricLabels::new().insert("topic", topic).insert("handler_id", handler_id).insert(
            "mode",
            mode,
        )
    }
}

impl ConsumerLagMetrics {
    /// Labels of a partition's lag: topic and partition in decimal.
    pub fn lag_labels(topic: &str, partition: i32) -> (r: MetricLabels)
        ensures
            keys_sorted(r@),
            r@.len() == 2,
            has_label(r@, "topic"@, topic@),
            has_label(r@, "partition"@, signed_decimal(partition as int)),
    {
        let p = i64_text(partition as i64);
        MetricLabels::new().insert("topic", topic).insert("partition", p.as_str())
    }
}

impl QueueMetrics {
    /// Labels of a handler's queue depth: the handler id.
    pub fn queue_depth_labels(handler_id: &str) -> (r: MetricLabels)
        ensures
            keys_sorted(r@),
            r@.len() == 1,
            has_label(r@, "handler_id"@, handler_id@),
    {
        MetricLabels::new().insert("handler_id", handler_id)
    }
}

impl DlqMetrics {
    /// Labels of a dead-lettered message: the dead-letter topic and the
    /// message's original topic.
    pub fn dlq_labels(dlq_topic: &str, original_topic: &str) -> (r: MetricLabels)
        ensures
            keys_sorted(r@),
            r@.len() == 2,
            has_label(r@, "dlq_topic"@, dlq_topic@),
            has_label(r@, "original_topic"@, original_topic@),
    {
        MetricLabels::new().insert("dlq_topic", dlq_topic).insert("original_topic", original_topic)
    }
}

/// Queue depth and in-flight count of a handler's queue.
#[derive(Debug, Clone, Copy, PartialEq, Eq, Structural)]
pub struct QueueSnapshot {
    pub queue_depth: usize,
    pub inflight: usize,
}

impl QueueSnapshot {
    /// An empty queue: nothing queued, nothing in flight.
    pub fn new() -> (r: Self)
        ensures
            r.queue_depth == 0,
            r.inflight == 0,
    {
        QueueSnapshot { queue_depth: 0, inflight: 0 }
    }
}

impl Default for QueueSnapshot {
    fn default() -> (r: Self)
        ensures
            r.queue_depth == 0,
            r.inflight == 0,
    {
        QueueSnapshot::new()
    }
}

} // verus!
