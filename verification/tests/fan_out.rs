use kafpy::execution::{ExecutionResult, TimeoutInfo};
use kafpy::failure::{FailureCategory, FailureReason};
use kafpy::message::{MessageTimestamp, OwnedMessage};
use kafpy::worker_pool::dispatch::{
    branch_context, branch_dead_letters, branch_result_of, branch_trace_ids, branch_trace_ids_from,
    dispatch_trace_id, sink_timeout_text,
};
use kafpy::worker_pool::fan_out::{BranchResult, CallbackRegistry, FanOutTracker};
use std::sync::{Arc, Mutex};

type Tracker = FanOutTracker<&'static str, fn(BranchResult)>;

#[test]
fn fan_out_tracker_caps_at_64() {
    let tracker = Tracker::new(128);
    assert_eq!(tracker.max_fan_out(), 64);
    assert_eq!(Tracker::new(100).max_fan_out(), 64);
    assert_eq!(Tracker::new(64).max_fan_out(), 64);
    assert_eq!(Tracker::new(4).max_fan_out(), 4);
}

#[test]
fn fan_out_tracker_try_acquire_slot_returns_false_when_exhausted() {
    let mut tracker = Tracker::new(2);
    assert!(tracker.try_acquire_slot());
    assert!(tracker.try_acquire_slot());
    assert!(!tracker.try_acquire_slot());
    assert!(tracker.is_exhausted());
}

#[test]
fn fan_out_tracker_release_slot_decrements_inflight() {
    let mut tracker = Tracker::new(4);
    assert_eq!(tracker.inflight_count(), 0);
    assert!(tracker.try_acquire_slot());
    assert_eq!(tracker.inflight_count(), 1);
    tracker.release_slot();
    assert_eq!(tracker.inflight_count(), 0);
}

#[test]
fn fan_out_tracker_is_exhausted() {
    let mut tracker = Tracker::new(1);
    assert!(!tracker.is_exhausted());
    assert!(tracker.try_acquire_slot());
    assert!(tracker.is_exhausted());
    tracker.release_slot();
    assert!(!tracker.is_exhausted());
}

#[test]
fn fan_out_tracker_register_sink() {
    let mut tracker = Tracker::new(4);
    assert_eq!(tracker.sink_count(), 0);
    tracker.register_sink("topic-a".to_string(), "handler-a", None);
    tracker.register_sink("topic-b".to_string(), "handler-b", None);
    assert_eq!(tracker.sink_count(), 2);
    assert_eq!(tracker.sinks()[1].topic, "topic-b");
}

#[test]
fn callback_registry_generates_unique_branch_ids() {
    let mut registry: CallbackRegistry<fn(BranchResult)> = CallbackRegistry::new();
    fn noop(_: BranchResult) {}
    let id1 = registry.on_sink_complete(noop);
    let id2 = registry.on_sink_complete(noop);
    let id3 = registry.on_sink_complete(noop);
    assert_ne!(id1, id2);
    assert_ne!(id2, id3);
    assert_ne!(id1, id3);
    assert_eq!((id1, id2, id3), (1, 2, 3));
}

#[test]
fn callback_registry_emit_invokes_callback() {
    let called = Arc::new(Mutex::new(false));
    let result_received: Arc<Mutex<Option<BranchResult>>> = Arc::new(Mutex::new(None));
    let called_clone = Arc::clone(&called);
    let result_clone = Arc::clone(&result_received);
    let mut registry = CallbackRegistry::new();
    let branch_id = registry.on_sink_complete(move |result: BranchResult| {
        *called_clone.lock().unwrap() = true;
        *result_clone.lock().unwrap() = Some(result);
    });
    registry.emit(branch_id, BranchResult::Success);
    assert!(*called.lock().unwrap());
    assert!(matches!(*result_received.lock().unwrap(), Some(BranchResult::Success)));
}

#[test]
fn emit_twice_invokes_once() {
    let count = Arc::new(Mutex::new(0u32));
    let c = Arc::clone(&count);
    let mut registry = CallbackRegistry::new();
    let id = registry.on_sink_complete(move |_r: BranchResult| {
        *c.lock().unwrap() += 1;
    });
    registry.emit(id, BranchResult::Success);
    registry.emit(id, BranchResult::Success);
    assert_eq!(*count.lock().unwrap(), 1);
}

#[test]
fn tracker_records_branches_until_complete() {
    let mut tracker = Tracker::new(4);
    let b0 = tracker.register_branch();
    let b1 = tracker.register_branch();
    assert_eq!((b0, b1), (0, 1));
    assert!(!tracker.is_complete());
    assert!(!tracker.record_branch_result(b0, BranchResult::Success));
    assert!(tracker.record_branch_result(b1, BranchResult::Timeout { timeout_ms: 5 }));
    assert!(tracker.is_complete());
    let results = tracker.results();
    assert_eq!(results.results.len(), 2);
    assert_eq!(results.results[1].0, 1);
}

fn msg() -> OwnedMessage {
    OwnedMessage {
        topic: "src".to_string(),
        partition: 3,
        offset: 42,
        key: None,
        payload: None,
        timestamp: MessageTimestamp::CreateTime(7),
        headers: vec![],
    }
}

#[test]
fn branch_results_follow_handler_results() {
    assert!(matches!(branch_result_of(ExecutionResult::Success), BranchResult::Success));
    let t = branch_result_of(ExecutionResult::Timeout {
        info: TimeoutInfo { timeout_ms: 250, last_processed_offset: Some(1) },
    });
    assert!(matches!(t, BranchResult::Timeout { timeout_ms: 250 }));
    let reason = FailureReason::new(FailureCategory::Retryable, "x".to_string());
    let rejected = branch_result_of(ExecutionResult::Rejected { reason, reason_str: "r".to_string() });
    match rejected {
        BranchResult::Error { reason, exception } => {
            assert_eq!(reason.category, FailureCategory::Terminal);
            assert_eq!(exception, "Rejected");
        }
        _ => panic!("expected an error"),
    }
}

#[test]
fn branch_trace_ids_keep_parent() {
    let (t, s) = branch_trace_ids_from(Some("abc"), &[0; 16], &[0xab, 0x01]);
    assert_eq!(t, "abc");
    assert_eq!(s, "ab01");
    let (t, _) = branch_trace_ids_from(None, &[0x0f, 0xa0], &[]);
    assert_eq!(t, "0fa0");
    let (t, s) = branch_trace_ids(None);
    assert_eq!(t.len(), 32);
    assert_eq!(s.len(), 16);
    assert!(t.chars().all(|c| c.is_ascii_hexdigit()));
    let (t, _) = branch_trace_ids(Some("parent"));
    assert_eq!(t, "parent");
}

#[test]
fn branch_context_carries_branch_ids() {
    let m = msg();
    let ctx = branch_context("sink".to_string(), &m, 2, "tid".to_string(), "sid".to_string(), 5, 9);
    assert_eq!(ctx.topic, "sink");
    assert_eq!(ctx.partition, 3);
    assert_eq!(ctx.offset, 42);
    assert_eq!(ctx.trace_flags.as_deref(), Some("01"));
    assert_eq!(ctx.branch_id, Some(5));
    assert_eq!(ctx.fan_out_id, Some(9));
    assert!(ctx.fan_in_id.is_none());
}

#[test]
fn sink_timeout_text_formats_millis() {
    assert_eq!(sink_timeout_text(1500), "sink timeout after 1500ms");
    assert_eq!(sink_timeout_text(0), "sink timeout after 0ms");
}

#[test]
fn failed_branches_owe_dead_letters() {
    let reason = FailureReason::new(FailureCategory::Terminal, "boom".to_string());
    let results = vec![
        (2u64, BranchResult::Timeout { timeout_ms: 30 }),
        (0u64, BranchResult::Success),
        (1u64, BranchResult::Error { reason, exception: "ValueError".to_string() }),
        (7u64, BranchResult::Timeout { timeout_ms: 40 }),
    ];
    let bindings = vec![(0u64, "a".to_string()), (1u64, "b".to_string()), (2u64, "c".to_string())];
    let dl = branch_dead_letters(&results, &bindings);
    assert_eq!(dl.len(), 2);
    assert_eq!(dl[0].sink_topic, "c");
    assert_eq!(dl[0].branch_id, 2);
    assert_eq!(dl[0].exception, "sink timeout after 30ms");
    assert_eq!(dl[0].timeout_ms, Some(30));
    assert_eq!(dl[1].sink_topic, "b");
    assert_eq!(dl[1].branch_id, 1);
    assert_eq!(dl[1].exception, "ValueError");
    assert_eq!(dl[1].timeout_ms, None);
}

#[test]
fn tracker_binds_branches_to_their_sinks() {
    let mut tracker: FanOutTracker<(), fn(BranchResult)> = FanOutTracker::new(4);
    let a = tracker.register_sink_branch("sink-a".to_string());
    let b = tracker.register_sink_branch("sink-b".to_string());
    tracker.record_branch_result(b, BranchResult::Timeout { timeout_ms: 5 });
    tracker.record_branch_result(a, BranchResult::Success);
    let results = tracker.results();
    let dl = branch_dead_letters(&results.results, tracker.branch_topics());
    assert_eq!(dl.len(), 1);
    assert_eq!(dl[0].sink_topic, "sink-b");
    assert_eq!(dl[0].branch_id, b);
}

#[test]
fn dispatch_trace_id_is_shared_or_fresh() {
    assert_eq!(dispatch_trace_id(Some("abc")), "abc");
    let fresh = dispatch_trace_id(None);
    assert_eq!(fresh.len(), 32);
    assert!(fresh.chars().all(|c| c.is_ascii_hexdigit()));
}

use kafpy::worker_pool::concurrency::{no_slot_free, slot_outcome, BackpressureAction, FanOutConfig, FanOutSlotManager, HandlerConcurrency};
use kafpy::worker_pool::fan_out::SinkConfig;

#[test]
fn fan_out_slot_manager_new_caps_at_64() {
    let manager = FanOutSlotManager::new(128, "test".to_string());
    assert_eq!(manager.available(), 64);
    assert_eq!(manager.max_slots(), 64);
    let manager = FanOutSlotManager::new(4, "test".to_string());
    assert_eq!(manager.available(), 4);
    assert_eq!(manager.max_slots(), 4);
    assert_eq!(manager.topic(), "test");
}

#[test]
fn fan_out_config_sink_count() {
    let config = FanOutConfig {
        sinks: vec![
            SinkConfig { topic: "topic-a".to_string(), handler: "h1", timeout: None },
            SinkConfig { topic: "topic-b".to_string(), handler: "h2", timeout: None },
        ],
        max_fan_out: 4,
        slot_manager: None,
    };
    assert_eq!(config.sink_count(), 2);
}

#[test]
fn fan_out_config_is_exhausted_without_slot_manager() {
    let config: FanOutConfig<&str> = FanOutConfig { sinks: vec![], max_fan_out: 4, slot_manager: None };
    assert!(!config.is_exhausted());
}

#[test]
fn fan_out_config_exhausted_when_no_slot_free() {
    let manager = Arc::new(FanOutSlotManager::new(1, "t".to_string()));
    let permit = manager.semaphore().try_acquire_owned().unwrap();
    let config: FanOutConfig<&str> = FanOutConfig { sinks: vec![], max_fan_out: 1, slot_manager: Some(Arc::clone(&manager)) };
    assert!(config.is_exhausted());
    drop(permit);
    assert!(!config.is_exhausted());
}

#[test]
fn handler_concurrency_registers_on_first_use() {
    let mut hc = HandlerConcurrency::new(4);
    assert_eq!(hc.available("topic-x"), None);
    let sem = hc.semaphore_for("topic-x");
    assert_eq!(hc.available("topic-x"), Some(4));
    let permit = sem.try_acquire_owned().unwrap();
    assert_eq!(hc.available("topic-x"), Some(3));
    drop(permit);
    let mut hc = hc.with_default_limit(2);
    hc.semaphore_for("topic-y");
    assert_eq!(hc.available("topic-y"), Some(2));
    assert_eq!(hc.available("topic-x"), Some(4));
}

#[test]
fn fan_out_slot_manager_acquire_returns_ok() {
    let manager = FanOutSlotManager::new(2, "test-topic".to_string());
    assert_eq!(manager.available(), 2);
    manager.acquire().expect("should acquire");
    assert_eq!(manager.available(), 1);
    manager.acquire().expect("should acquire");
    assert_eq!(manager.available(), 0);
}

#[test]
fn fan_out_slot_manager_acquire_exhausted_returns_error() {
    let manager = FanOutSlotManager::new(1, "test-topic".to_string());
    manager.acquire().expect("first should succeed");
    assert_eq!(manager.available(), 0);
    let err = manager.acquire().expect_err("second should fail");
    assert!(matches!(err, BackpressureAction::PausePartition { .. }));
    assert_eq!(err, BackpressureAction::PausePartition { topic: "test-topic".to_string(), partition: -1 });
}

#[test]
fn slot_outcome_pauses_topic_when_nothing_taken() {
    assert_eq!(slot_outcome(1, "t"), Ok(()));
    assert_eq!(slot_outcome(0, "t"), Err(BackpressureAction::PausePartition { topic: "t".to_string(), partition: -1 }));
}

#[test]
fn handler_keeps_its_semaphore() {
    let mut hc = HandlerConcurrency::new(3);
    let first = hc.semaphore_for("h");
    let again = hc.semaphore_for("h");
    assert!(Arc::ptr_eq(&first, &again));
    let other = hc.semaphore_for("g");
    assert!(!Arc::ptr_eq(&first, &other));
}

#[test]
fn slot_request_asks_own_semaphore_for_one_permit() {
    let manager = FanOutSlotManager::new(3, "t".to_string());
    let (semaphore, permits) = manager.slot_request();
    assert!(Arc::ptr_eq(&semaphore, &manager.semaphore()));
    assert_eq!(permits, 1);
}

#[test]
fn no_slot_free_only_at_zero() {
    assert!(no_slot_free(0));
    assert!(!no_slot_free(1));
    assert!(!no_slot_free(64));
}
