//! Observability: metric labels, trace-context propagation and the values
//! behind the runtime snapshot and Kafka metrics.

pub mod config;
pub mod kafka_metrics;
pub mod labels;
pub mod metrics;
pub mod runtime_snapshot;
pub mod tracing;
