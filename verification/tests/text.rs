use kafpy::failure::FailureCategory;
use kafpy::routing::callback::{callback_error_decision, parse_reply};
use kafpy::routing::decision::{RejectReason, RoutingDecision};
use kafpy::text::{i64_text, strip_prefix, u64_text};
use kafpy::text_map::TextMap;

#[test]
fn decimal_text_matches_to_string() {
    for n in [0u64, 7, 10, 99, 100, 12345, u64::MAX] {
        assert_eq!(u64_text(n), n.to_string());
    }
    for i in [0i64, -1, 42, -9876, i64::MIN, i64::MAX] {
        assert_eq!(i64_text(i), i.to_string());
    }
}

#[test]
fn strip_prefix_by_characters() {
    assert_eq!(strip_prefix("route:h1", "route:"), Some("h1"));
    assert_eq!(strip_prefix("rou", "route:"), None);
    assert_eq!(strip_prefix("ünï", "ü"), Some("nï"));
}

#[test]
fn callback_replies_parse() {
    assert!(matches!(parse_reply("route:my-handler"), RoutingDecision::Route(h) if h.as_str() == "my-handler"));
    assert_eq!(parse_reply("drop"), RoutingDecision::Drop);
    assert_eq!(parse_reply("defer"), RoutingDecision::Defer);
    assert_eq!(
        parse_reply("reject:no_match"),
        RoutingDecision::Reject(RejectReason::Explicit("no_match".to_string()))
    );
    assert!(matches!(parse_reply("nonsense"), RoutingDecision::Reject(RejectReason::Explicit(_))));
    assert!(matches!(callback_error_decision("boom"), RoutingDecision::Reject(_)));
}

#[test]
fn text_map_insert_replaces() {
    let mut m = TextMap::new();
    m.insert("k".to_string(), "1".to_string());
    m.insert("k".to_string(), "2".to_string());
    assert_eq!(m.len(), 1);
    assert_eq!(m.get("k").map(|s| s.as_str()), Some("2"));
    assert_eq!(m.pairs().len(), 1);
}

#[test]
fn failure_category_repr() {
    assert_eq!(FailureCategory::Retryable.repr(), "FailureCategory.Retryable");
    assert_eq!(FailureCategory::Terminal.repr(), "FailureCategory.Terminal");
    assert_eq!(FailureCategory::NonRetryable.repr(), "FailureCategory.NonRetryable");
}
