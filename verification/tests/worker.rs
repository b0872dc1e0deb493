use kafpy::execution::{BatchExecutionResult, DefaultExecutor, ExecutionContext, ExecutionResult, Executor, ExecutorOutcome};
use kafpy::failure::{FailureCategory, FailureReason};
use kafpy::handler::{
    all_batch_modes, auto_offset_reset_of, resolve_batch_policy, resolve_num_workers, resolve_timeout_ms,
    workers_to_spawn, AutoOffsetReset, BatchPolicy, HandlerMode,
};
use kafpy::message::{MessageTimestamp, OwnedMessage};
use kafpy::worker_pool::accumulator::PerPartitionBuffer;
use kafpy::worker_pool::action::{failure_action, ExecutionAction};
use kafpy::worker_pool::batch::BatchAccumulator;
use kafpy::worker_pool::state::{BatchState, WorkerState};
use kafpy::worker_pool::streaming::{backoff_secs, streaming_next, StreamOutcome, StreamingAction, StreamingEvent, StreamingState};
use kafpy::worker_pool::worker::{handler_for_topic, header_texts, message_context, worker_next, WorkerAction, WorkerEvent};
use std::time::Duration;

fn msg(partition: i32, offset: i64) -> OwnedMessage {
    OwnedMessage {
        topic: "t".to_string(),
        partition,
        offset,
        key: None,
        payload: None,
        timestamp: MessageTimestamp::NotAvailable,
        headers: vec![],
    }
}

#[test]
fn handler_lookup_falls_back_to_first() {
    let handlers = vec![("a".to_string(), 1), ("b".to_string(), 2)];
    assert_eq!(*handler_for_topic(&handlers, "b"), 2);
    assert_eq!(*handler_for_topic(&handlers, "zzz"), 1);
}

#[test]
fn header_texts_skip_missing_values_and_decode_leniently() {
    let headers = vec![
        ("a".to_string(), Some(b"1".to_vec())),
        ("b".to_string(), None),
        ("c".to_string(), Some(vec![0x66, 0xff])),
        ("a".to_string(), Some(b"2".to_vec())),
    ];
    let m = header_texts(&headers);
    assert_eq!(m.len(), 2);
    assert_eq!(m.get("a").map(|s| s.as_str()), Some("2"));
    assert_eq!(m.get("c").map(|s| s.as_str()), Some("f\u{fffd}"));
    assert!(m.get("b").is_none());
}

#[test]
fn message_context_reads_traceparent() {
    let mut m = msg(2, 9);
    m.headers.push(("traceparent".to_string(), Some(b"00-aaaa-bbbb-01".to_vec())));
    let ctx = message_context(&m, 4, String::new(), None);
    assert_eq!(ctx.topic, "t");
    assert_eq!(ctx.partition, 2);
    assert_eq!(ctx.offset, 9);
    assert_eq!(ctx.worker_id, 4);
    assert_eq!(ctx.trace_id.as_deref(), Some("aaaa"));
    assert_eq!(ctx.span_id.as_deref(), Some("bbbb"));
    assert_eq!(ctx.trace_flags.as_deref(), Some("01"));
    let plain = message_context(&msg(0, 0), 1, "src".to_string(), Some(7));
    assert!(plain.trace_id.is_none());
    assert_eq!(plain.source_topic, "src");
    assert_eq!(plain.fan_in_id, Some(7));
}

#[test]
fn worker_loop_steps() {
    let (s, a) = worker_next(WorkerState::Idle, WorkerEvent::Received(msg(0, 1)));
    assert_eq!(a, WorkerAction::Invoke);
    assert!(s.is_processing());
    let (s, a) = worker_next(s, WorkerEvent::Settled { retry: Some(2), cancelled: true });
    assert_eq!(a, WorkerAction::RetryAfter { backoff_index: 2 });
    assert_eq!(s.message().map(|m| m.offset), Some(1));
    let (s, a) = worker_next(s, WorkerEvent::Settled { retry: None, cancelled: false });
    assert_eq!(a, WorkerAction::FanOutThenIdle);
    assert!(!s.is_processing());
    let (_, a) = worker_next(WorkerState::Idle, WorkerEvent::ShutdownSignalled);
    assert_eq!(a, WorkerAction::Exit);
    let (s, a) = worker_next(WorkerState::Processing(msg(0, 3)), WorkerEvent::Settled { retry: None, cancelled: true });
    assert_eq!(a, WorkerAction::Exit);
    assert!(!s.is_processing());
}

#[test]
fn failure_action_prefers_retry() {
    let d = Duration::from_millis(100);
    assert!(matches!(failure_action(true, false, Some(d)), ExecutionAction::Retry { delay } if delay == d));
    assert!(matches!(failure_action(true, true, None), ExecutionAction::Dlq));
    assert!(matches!(failure_action(false, false, None), ExecutionAction::Ack));
}

#[test]
fn batch_state_flags() {
    assert!(BatchState::Backpressure.is_backpressure());
    assert!(!BatchState::Normal.is_backpressure());
}

#[test]
fn per_partition_buffer_window() {
    let mut buf = PerPartitionBuffer::new();
    assert!(buf.is_empty());
    assert!(!buf.is_deadline_expired_at(i64::MAX));
    buf.add_at(msg(0, 1), 1_000, 500);
    assert_eq!(buf.deadline(), Some(1_500));
    buf.add_at(msg(0, 2), 1_400, 500);
    assert_eq!(buf.deadline(), Some(1_500));
    assert!(!buf.is_deadline_expired_at(1_499));
    assert!(buf.is_deadline_expired_at(1_500));
    let taken = buf.take_messages();
    assert_eq!(taken.len(), 2);
    assert!(buf.is_empty());
    assert_eq!(buf.deadline(), None);
}

#[test]
fn batch_accumulator_flushes_per_partition() {
    let mut acc = BatchAccumulator::new(2, 100);
    assert!(acc.is_empty());
    acc.add_at(msg(0, 1), 10);
    acc.add_at(msg(1, 5), 20);
    assert!(!acc.would_fill_partition(0));
    acc.add_at(msg(0, 2), 30);
    assert!(acc.would_fill_partition(0));
    assert_eq!(acc.total_len(), 3);
    assert_eq!(acc.next_deadline(), Some(110));
    assert!(acc.is_any_deadline_expired_at(110));
    let p0 = acc.flush_partition(0).unwrap();
    assert_eq!(p0.iter().map(|m| m.offset).collect::<Vec<_>>(), vec![1, 2]);
    assert!(acc.flush_partition(0).is_none());
    let all = acc.flush_all();
    assert_eq!(all.len(), 1);
    assert_eq!(all[0].0, 1);
    assert!(acc.is_empty());
}

#[test]
fn streaming_lifecycle_recovers_then_drains() {
    let (s, a) = streaming_next(StreamingState::Starting, StreamingEvent::Tick { cancelled: false });
    assert_eq!((s, a), (StreamingState::Running { failures: 0 }, StreamingAction::Continue));
    let (s, a) = streaming_next(s, StreamingEvent::Tick { cancelled: false });
    assert_eq!(a, StreamingAction::Invoke);
    let (s, _) = streaming_next(s, StreamingEvent::Invoked(StreamOutcome::Failed));
    assert_eq!(s, StreamingState::Recovering { attempt: 1 });
    let (s, a) = streaming_next(s, StreamingEvent::Tick { cancelled: false });
    assert_eq!(a, StreamingAction::Backoff { secs: 2 });
    let (s, _) = streaming_next(s, StreamingEvent::BackoffElapsed);
    assert_eq!(s, StreamingState::Running { failures: 1 });
    let (s, _) = streaming_next(s, StreamingEvent::Tick { cancelled: true });
    assert_eq!(s, StreamingState::Draining);
    let (s, a) = streaming_next(s, StreamingEvent::Tick { cancelled: false });
    assert_eq!((s, a), (StreamingState::Stopped, StreamingAction::AckAndExit));
    assert_eq!(backoff_secs(3), 8);
}

#[test]
fn default_executor_acks() {
    let ctx = ExecutionContext::new("t".to_string(), 0, 1, 0);
    let outcome = DefaultExecutor.execute(&ctx, &msg(0, 1), &ExecutionResult::Success);
    assert_eq!(outcome, ExecutorOutcome::Ack);
}

#[test]
fn result_conversions() {
    let reason = FailureReason::new(FailureCategory::Retryable, "r".to_string());
    let single = ExecutionResult::from_batch(BatchExecutionResult::AllFailure(reason.clone()));
    match single {
        ExecutionResult::Error { reason: r, exception, traceback } => {
            assert_eq!(r.description, "r");
            assert_eq!(exception, "BatchHandlerError");
            assert_eq!(traceback, "Batch handler failed");
        }
        _ => panic!("expected error"),
    }
    assert!(ExecutionResult::from_batch(BatchExecutionResult::AllSuccess(vec![1])).is_ok());
    let batch = vec![msg(0, 4), msg(0, 6)];
    match BatchExecutionResult::from_single(ExecutionResult::Success, &batch) {
        BatchExecutionResult::AllSuccess(offsets) => assert_eq!(offsets, vec![4, 6]),
        _ => panic!("expected success"),
    }
    match BatchExecutionResult::from_single(ExecutionResult::timed_out(5), &batch) {
        BatchExecutionResult::AllFailure(r) => assert_eq!(r.category, FailureCategory::Terminal),
        _ => panic!("expected failure"),
    }
    assert!(ExecutionResult::timed_out(5).is_timeout());
    let panic = ExecutionResult::handler_panic("tb".to_string());
    assert!(panic.is_error());
    let streaming = ExecutionResult::streaming_outcome(ExecutionResult::timed_out(1));
    match streaming {
        ExecutionResult::Error { exception, .. } => assert_eq!(exception, "StreamingError"),
        _ => panic!("expected error"),
    }
}

#[test]
fn builder_settings() {
    assert_eq!(auto_offset_reset_of("earliest"), AutoOffsetReset::Earliest);
    assert_eq!(auto_offset_reset_of("latest"), AutoOffsetReset::Latest);
    assert_eq!(auto_offset_reset_of("other"), AutoOffsetReset::Latest);
    assert_eq!(workers_to_spawn(4, 2), 2);
    assert_eq!(workers_to_spawn(4, 9), 4);
    assert_eq!(resolve_timeout_ms(None, Some(30)), Some(30));
    assert_eq!(resolve_timeout_ms(Some(5), Some(30)), Some(5));
    assert_eq!(resolve_num_workers(None), 4);
    assert_eq!(resolve_num_workers(Some(2)), 2);
    assert_eq!(
        resolve_batch_policy(Some(10), None),
        Some(BatchPolicy { max_batch_size: 10, max_batch_wait_ms: 1000 })
    );
    assert_eq!(
        resolve_batch_policy(None, Some(5)),
        Some(BatchPolicy { max_batch_size: 100, max_batch_wait_ms: 5 })
    );
    assert_eq!(
        resolve_batch_policy(None, None),
        Some(BatchPolicy { max_batch_size: 100, max_batch_wait_ms: 1000 })
    );
    assert!(all_batch_modes(&[HandlerMode::BatchSync, HandlerMode::BatchAsync]));
    assert!(!all_batch_modes(&[HandlerMode::BatchSync, HandlerMode::SingleSync]));
    assert_eq!(HandlerMode::from_opt_str(Some("batch_sync")).as_str(), HandlerMode::BatchSync.as_str());
}

use kafpy::worker_pool::batch_loop::accept_message;

#[test]
fn batch_arrivals_flush_full_partitions() {
    let mut acc = BatchAccumulator::new(2, 1000);
    let (state, flushed) = accept_message(&mut acc, BatchState::Normal, msg(0, 1), Some(10), Some(0));
    assert_eq!(state, BatchState::Normal);
    assert!(flushed.is_empty());
    let (_, flushed) = accept_message(&mut acc, BatchState::Normal, msg(1, 7), None, None);
    assert!(flushed.is_empty());
    let (_, flushed) = accept_message(&mut acc, BatchState::Normal, msg(0, 2), None, None);
    assert_eq!(flushed.len(), 1);
    assert_eq!(flushed[0].0, 0);
    assert_eq!(flushed[0].1.iter().map(|m| m.offset).collect::<Vec<_>>(), vec![1, 2]);
    assert_eq!(acc.total_len(), 1);
}

#[test]
fn batch_arrival_at_capacity_flushes_everything_first() {
    let mut acc = BatchAccumulator::new(5, 1000);
    accept_message(&mut acc, BatchState::Normal, msg(0, 1), None, None);
    accept_message(&mut acc, BatchState::Normal, msg(1, 2), None, None);
    let (state, flushed) = accept_message(&mut acc, BatchState::Normal, msg(2, 3), Some(4), Some(4));
    assert_eq!(state, BatchState::Backpressure);
    assert_eq!(flushed.len(), 2);
    assert_eq!(acc.total_len(), 1);
    let (state, flushed) = accept_message(&mut acc, BatchState::Backpressure, msg(2, 4), Some(4), Some(9));
    assert_eq!(state, BatchState::Backpressure);
    assert!(flushed.is_empty());
}
