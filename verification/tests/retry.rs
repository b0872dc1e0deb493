use kafpy::execution::{BatchExecutionResult, ExecutionResult, TimeoutInfo};
use kafpy::failure::{FailureCategory, FailureReason};
use kafpy::message::{MessageTimestamp, OwnedMessage};
use kafpy::retry::RetryCoordinator;
use kafpy::worker_pool::settle::{
    settle_batch, settle_failure, settle_fan_in_result, settle_result, FailureSettlement, SettleEffect,
};

fn retryable() -> FailureReason {
    FailureReason::new(FailureCategory::Retryable, "NetworkTimeout".to_string())
}

fn terminal() -> FailureReason {
    FailureReason::new(FailureCategory::Terminal, "DeserializationFailed".to_string())
}

#[test]
fn retryable_failure_triggers_retry() {
    let mut coordinator = RetryCoordinator::with_max_attempts(3);
    let (should_retry, should_dlq, delay) = coordinator.record_failure("topic", 0, 100, &retryable());
    assert!(should_retry);
    assert!(!should_dlq);
    assert!(delay.is_some());
    assert_eq!(coordinator.attempt_count("topic", 0, 100), 1);
}

#[test]
fn terminal_failure_skips_retry() {
    let mut coordinator = RetryCoordinator::with_max_attempts(3);
    let (should_retry, should_dlq, delay) = coordinator.record_failure("topic", 0, 100, &terminal());
    assert!(!should_retry);
    assert!(should_dlq);
    assert!(delay.is_none());
}

#[test]
fn max_attempts_exceeded_returns_no_retry() {
    let mut coordinator = RetryCoordinator::with_max_attempts(2);
    let reason = retryable();
    let (should_retry, should_dlq, _) = coordinator.record_failure("topic", 0, 100, &reason);
    assert!(should_retry);
    assert!(!should_dlq);
    let (should_retry, should_dlq, _) = coordinator.record_failure("topic", 0, 100, &reason);
    assert!(should_retry);
    assert!(!should_dlq);
    let (should_retry, should_dlq, delay) = coordinator.record_failure("topic", 0, 100, &reason);
    assert!(!should_retry);
    assert!(should_dlq);
    assert!(delay.is_none());
}

#[test]
fn success_clears_retry_state() {
    let mut coordinator = RetryCoordinator::with_max_attempts(3);
    coordinator.record_failure("topic", 0, 100, &retryable());
    assert_eq!(coordinator.attempt_count("topic", 0, 100), 1);
    coordinator.record_success("topic", 0, 100);
    assert_eq!(coordinator.attempt_count("topic", 0, 100), 0);
}

#[test]
fn backoff_steps_count_retries_granted() {
    let mut coordinator = RetryCoordinator::with_max_attempts(3);
    let reason = retryable();
    assert_eq!(coordinator.record_failure("t", 1, 5, &reason), (true, false, Some(0)));
    assert_eq!(coordinator.record_failure("t", 1, 5, &reason), (true, false, Some(1)));
    assert_eq!(coordinator.record_failure("t", 1, 5, &reason), (true, false, Some(2)));
    assert_eq!(coordinator.attempt_count("t", 1, 5), 3);
    assert_eq!(coordinator.record_failure("t", 1, 5, &reason), (false, true, None));
    assert_eq!(coordinator.attempt_count("t", 1, 5), 0);
    // once exhausted, it stays exhausted
    assert_eq!(coordinator.record_failure("t", 1, 5, &reason), (false, true, None));
}

#[test]
fn zero_max_attempts_dead_letters_first_failure() {
    let mut coordinator = RetryCoordinator::with_max_attempts(0);
    assert_eq!(coordinator.record_failure("t", 0, 1, &retryable()), (false, true, None));
    assert_eq!(coordinator.max_attempts(), 0);
}

#[test]
fn messages_are_tracked_independently() {
    let mut coordinator = RetryCoordinator::with_max_attempts(3);
    coordinator.record_failure("t", 0, 1, &retryable());
    coordinator.record_failure("t", 0, 1, &retryable());
    coordinator.record_failure("t", 1, 1, &retryable());
    coordinator.record_failure("u", 0, 1, &retryable());
    assert_eq!(coordinator.attempt_count("t", 0, 1), 2);
    assert_eq!(coordinator.attempt_count("t", 1, 1), 1);
    assert_eq!(coordinator.attempt_count("u", 0, 1), 1);
    assert_eq!(coordinator.attempt_count("u", 0, 2), 0);
}

#[test]
fn non_retryable_failure_leaves_state() {
    let mut coordinator = RetryCoordinator::with_max_attempts(3);
    coordinator.record_failure("t", 0, 1, &retryable());
    let nr = FailureReason::new(FailureCategory::NonRetryable, "x".to_string());
    assert_eq!(coordinator.record_failure("t", 0, 1, &nr), (false, true, None));
    assert_eq!(coordinator.attempt_count("t", 0, 1), 1);
}

// ─── Settlement ───────────────────────────────────────────────────────────────

fn msg(offset: i64) -> OwnedMessage {
    OwnedMessage {
        topic: "t".to_string(),
        partition: 0,
        offset,
        key: None,
        payload: Some(b"p".to_vec()),
        timestamp: MessageTimestamp::NotAvailable,
        headers: vec![],
    }
}

#[test]
fn settle_failure_retries_then_dead_letters() {
    let mut coordinator = RetryCoordinator::with_max_attempts(1);
    let reason = retryable();
    assert_eq!(
        settle_failure(&mut coordinator, "t", 0, 7, &reason),
        FailureSettlement::Retry { backoff_index: 0 }
    );
    assert_eq!(settle_failure(&mut coordinator, "t", 0, 7, &reason), FailureSettlement::DeadLetter { attempt: 0 });
}

#[test]
fn settle_terminal_dead_letters_with_attempt_count() {
    let mut coordinator = RetryCoordinator::with_max_attempts(3);
    coordinator.record_failure("t", 0, 7, &retryable());
    assert_eq!(settle_failure(&mut coordinator, "t", 0, 7, &terminal()), FailureSettlement::DeadLetter { attempt: 1 });
}

#[test]
fn settle_success_releases_and_commits() {
    let mut coordinator = RetryCoordinator::with_max_attempts(3);
    coordinator.record_failure("t", 0, 9, &retryable());
    let (effects, retry) = settle_result(&mut coordinator, "t", 0, 9, &ExecutionResult::Success);
    assert!(retry.is_none());
    assert_eq!(effects.len(), 2);
    assert!(matches!(effects[0], SettleEffect::ReleaseSlot));
    assert!(matches!(effects[1], SettleEffect::CommitOffset { offset: 9 }));
    assert_eq!(coordinator.attempt_count("t", 0, 9), 0);
}

#[test]
fn settle_retryable_error_keeps_slot() {
    let mut coordinator = RetryCoordinator::with_max_attempts(3);
    let result = ExecutionResult::Error { reason: retryable(), exception: "E".to_string(), traceback: String::new() };
    let (effects, retry) = settle_result(&mut coordinator, "t", 0, 3, &result);
    assert_eq!(retry, Some(0));
    assert_eq!(effects.len(), 1);
    assert!(matches!(&effects[0], SettleEffect::MarkFailed { offset: 3, .. }));
}

#[test]
fn settle_timeout_dead_letters_as_terminal() {
    let mut coordinator = RetryCoordinator::with_max_attempts(3);
    let result = ExecutionResult::Timeout { info: TimeoutInfo { timeout_ms: 50, last_processed_offset: None } };
    let (effects, retry) = settle_result(&mut coordinator, "t", 0, 3, &result);
    assert!(retry.is_none());
    assert_eq!(effects.len(), 3);
    match &effects[1] {
        SettleEffect::DeadLetter { offset, reason, attempt } => {
            assert_eq!(*offset, 3);
            assert_eq!(reason.category, FailureCategory::Terminal);
            assert_eq!(reason.description, "HandlerPanic");
            assert_eq!(*attempt, 0);
        }
        other => panic!("unexpected effect {:?}", other),
    }
    assert!(matches!(effects[2], SettleEffect::ReleaseSlot));
}

#[test]
fn settle_rejected_uses_its_reason() {
    let mut coordinator = RetryCoordinator::with_max_attempts(3);
    let result = ExecutionResult::Rejected { reason: terminal(), reason_str: "bad".to_string() };
    let (effects, _) = settle_result(&mut coordinator, "t", 0, 4, &result);
    match &effects[0] {
        SettleEffect::MarkFailed { reason, .. } => assert_eq!(reason.description, "DeserializationFailed"),
        other => panic!("unexpected effect {:?}", other),
    }
}

#[test]
fn fan_in_retry_drops_message() {
    let mut coordinator = RetryCoordinator::with_max_attempts(3);
    let result = ExecutionResult::Error { reason: retryable(), exception: "E".to_string(), traceback: String::new() };
    assert!(settle_fan_in_result(&mut coordinator, "t", 0, 3, &result).is_empty());
    let ok = settle_fan_in_result(&mut coordinator, "t", 0, 3, &ExecutionResult::Success);
    assert_eq!(ok.len(), 1);
    assert_eq!(coordinator.attempt_count("t", 0, 3), 0);
}

#[test]
fn batch_success_acks_each_offset() {
    let mut coordinator = RetryCoordinator::with_max_attempts(3);
    coordinator.record_failure("t", 0, 1, &retryable());
    let batch = vec![msg(1), msg(2)];
    let effects = settle_batch(&mut coordinator, "t", 0, &BatchExecutionResult::AllSuccess(vec![1, 2]), &batch);
    assert_eq!(effects.len(), 4);
    assert!(matches!(effects[1], SettleEffect::CommitOffset { offset: 1 }));
    assert!(matches!(effects[3], SettleEffect::CommitOffset { offset: 2 }));
    assert_eq!(coordinator.attempt_count("t", 0, 1), 0);
}

#[test]
fn batch_failure_dead_letters_every_message() {
    let mut coordinator = RetryCoordinator::with_max_attempts(3);
    let batch = vec![msg(1), msg(2), msg(1)];
    let effects = settle_batch(&mut coordinator, "t", 0, &BatchExecutionResult::AllFailure(retryable()), &batch);
    assert_eq!(effects.len(), 9);
    let attempts: Vec<usize> = effects
        .iter()
        .filter_map(|e| match e {
            SettleEffect::DeadLetter { attempt, .. } => Some(*attempt),
            _ => None,
        })
        .collect();
    assert_eq!(attempts, vec![1, 1, 2]);
    let releases = effects.iter().filter(|e| matches!(e, SettleEffect::ReleaseSlot)).count();
    assert_eq!(releases, 3);
}
