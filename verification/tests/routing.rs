use kafpy::routing::chain::RoutingChain;
use kafpy::routing::config::RoutingRule;
use kafpy::routing::context::{HandlerId, RoutingContext};
use kafpy::routing::decision::{RejectReason, RoutingDecision};
use kafpy::routing::header::{HeaderRouter, HeaderRule};
use kafpy::routing::key::{KeyRouter, KeyRule};
use kafpy::routing::router::Router;
use kafpy::routing::topic_pattern::{PatternType, TopicPatternRouter, TopicRule};
use std::sync::{Arc, Mutex};

struct MockRouter {
    decision: RoutingDecision,
}

impl Router for MockRouter {
    fn route(&self, _ctx: &RoutingContext) -> RoutingDecision {
        self.decision.clone()
    }
}

fn ctx() -> RoutingContext<'static> {
    RoutingContext {
        topic: "test",
        partition: 0,
        offset: 0,
        key: None,
        payload: None,
        headers: &[],
    }
}

fn is_route_to(d: &RoutingDecision, id: &str) -> bool {
    matches!(d, RoutingDecision::Route(h) if h.as_str() == id)
}

#[test]
fn first_non_defer_wins() {
    let chain = RoutingChain::new()
        .with_topic_router(MockRouter { decision: RoutingDecision::Drop })
        .with_header_router(MockRouter { decision: RoutingDecision::Route("header-handler".into()) })
        .with_key_router(MockRouter { decision: RoutingDecision::Route("key-handler".into()) })
        .with_default_handler("default".into());
    assert!(matches!(chain.route(&ctx()), RoutingDecision::Drop));
}

#[test]
fn defer_continues_chain() {
    let chain = RoutingChain::new()
        .with_topic_router(MockRouter { decision: RoutingDecision::Defer })
        .with_header_router(MockRouter { decision: RoutingDecision::Route("header-handler".into()) })
        .with_key_router(MockRouter { decision: RoutingDecision::Route("key-handler".into()) })
        .with_default_handler("default".into());
    assert!(is_route_to(&chain.route(&ctx()), "header-handler"));
}

#[test]
fn all_defer_returns_default() {
    let chain = RoutingChain::new()
        .with_topic_router(MockRouter { decision: RoutingDecision::Defer })
        .with_header_router(MockRouter { decision: RoutingDecision::Defer })
        .with_key_router(MockRouter { decision: RoutingDecision::Defer })
        .with_default_handler("my-default".into());
    assert!(is_route_to(&chain.route(&ctx()), "my-default"));
}

#[test]
fn skips_none_routers() {
    let chain = RoutingChain::new()
        .with_key_router(MockRouter { decision: RoutingDecision::Route("key-handler".into()) })
        .with_default_handler("default".into());
    assert!(is_route_to(&chain.route(&ctx()), "key-handler"));
}

struct TracingRouter(&'static str, RoutingDecision, Arc<Mutex<Vec<String>>>);

impl Router for TracingRouter {
    fn route(&self, _ctx: &RoutingContext) -> RoutingDecision {
        self.2.lock().unwrap().push(self.0.into());
        self.1.clone()
    }
}

#[test]
fn order_pattern_header_key() {
    let calls: Arc<Mutex<Vec<String>>> = Arc::new(Mutex::new(Vec::new()));
    let chain = RoutingChain::new()
        .with_topic_router(TracingRouter("pattern", RoutingDecision::Defer, Arc::clone(&calls)))
        .with_header_router(TracingRouter("header", RoutingDecision::Defer, Arc::clone(&calls)))
        .with_key_router(TracingRouter("key", RoutingDecision::Route("final".into()), Arc::clone(&calls)))
        .with_default_handler("default".into());
    chain.route(&ctx());
    let order = calls.lock().unwrap().clone();
    let order: Vec<&str> = order.iter().map(|s| s.as_str()).collect();
    assert_eq!(order, vec!["pattern", "header", "key"]);
}

#[test]
fn chain_without_default_rejects() {
    let chain = RoutingChain::new().with_key_router(MockRouter { decision: RoutingDecision::Defer });
    assert_eq!(chain.route(&ctx()), RoutingDecision::Reject(RejectReason::NoDefaultHandler));
}

#[test]
fn python_router_slot_is_last() {
    let chain = RoutingChain::new()
        .with_key_router(MockRouter { decision: RoutingDecision::Defer })
        .with_python_router(MockRouter { decision: RoutingDecision::Route("py".into()) })
        .with_default_handler("default".into());
    assert!(is_route_to(&chain.route(&ctx()), "py"));
    assert_eq!(chain.default_handler().as_str(), "default");
}

// ─── Header router ────────────────────────────────────────────────────────────

fn ctx_with_headers(headers: &[(&str, Option<&[u8]>)]) -> RoutingContext<'static> {
    let owned: Vec<(String, Option<Vec<u8>>)> = headers
        .iter()
        .map(|(k, v)| (k.to_string(), v.map(|b| b.to_vec())))
        .collect();
    RoutingContext {
        topic: "test",
        partition: 0,
        offset: 0,
        key: None,
        payload: None,
        headers: Box::leak(owned.into_boxed_slice()),
    }
}

fn rule(key: &str, value_pattern: Option<&str>, handler: &str) -> HeaderRule {
    HeaderRule {
        key: key.into(),
        value_pattern: value_pattern.map(|s| s.into()),
        handler_id: handler.into(),
    }
}

#[test]
fn presence_match() {
    let router = HeaderRouter::new(vec![rule("x-trace", None, "handler1")]);
    let ctx = ctx_with_headers(&[("x-trace", Some(b"abc"))]);
    assert!(is_route_to(&router.route(&ctx), "handler1"));
}

#[test]
fn presence_no_match_when_missing() {
    let router = HeaderRouter::new(vec![rule("x-trace", None, "handler1")]);
    let ctx = ctx_with_headers(&[("other", Some(b"abc"))]);
    assert!(matches!(router.route(&ctx), RoutingDecision::Defer));
}

#[test]
fn value_pattern_match() {
    let router = HeaderRouter::new(vec![rule("content-type", Some("application/json*"), "handler1")]);
    let ctx = ctx_with_headers(&[("content-type", Some(b"application/json; charset=utf-8"))]);
    assert!(is_route_to(&router.route(&ctx), "handler1"));
}

#[test]
fn value_pattern_no_match() {
    let router = HeaderRouter::new(vec![rule("content-type", Some("application/json*"), "handler1")]);
    let ctx = ctx_with_headers(&[("content-type", Some(b"text/plain"))]);
    assert!(matches!(router.route(&ctx), RoutingDecision::Defer));
}

#[test]
fn null_header_value_defers() {
    let router = HeaderRouter::new(vec![rule("x-trace", Some("*"), "handler1")]);
    let ctx = ctx_with_headers(&[("x-trace", None)]);
    assert!(matches!(router.route(&ctx), RoutingDecision::Defer));
}

#[test]
fn first_match_wins() {
    let router = HeaderRouter::new(vec![rule("x-a", None, "handler1"), rule("x-a", None, "handler2")]);
    let ctx = ctx_with_headers(&[("x-a", Some(b"1"))]);
    assert!(is_route_to(&router.route(&ctx), "handler1"));
}

#[test]
fn header_rule_count() {
    let router = HeaderRouter::new(vec![rule("x-a", None, "h1"), rule("x-b", Some("v"), "h2")]);
    assert_eq!(router.rule_count(), 2);
}

// ─── Key router ───────────────────────────────────────────────────────────────

fn key_ctx(key: Option<&'static [u8]>) -> RoutingContext<'static> {
    RoutingContext {
        topic: "test",
        partition: 0,
        offset: 0,
        key,
        payload: None,
        headers: &[],
    }
}

#[test]
fn exact_bytes_match() {
    let router = KeyRouter::new(vec![KeyRule::exact_bytes(b"order-123", "h".into())]);
    assert!(is_route_to(&router.route(&key_ctx(Some(b"order-123"))), "h"));
}

#[test]
fn exact_bytes_no_match() {
    let router = KeyRouter::new(vec![KeyRule::exact_bytes(b"order-123", "h".into())]);
    assert!(matches!(router.route(&key_ctx(Some(b"order-456"))), RoutingDecision::Defer));
}

#[test]
fn prefix_bytes_match() {
    let router = KeyRouter::new(vec![KeyRule::prefix_bytes(b"order-", "h".into())]);
    assert!(is_route_to(&router.route(&key_ctx(Some(b"order-123"))), "h"));
    assert!(is_route_to(&router.route(&key_ctx(Some(b"order-"))), "h"));
}

#[test]
fn prefix_bytes_no_match() {
    let router = KeyRouter::new(vec![KeyRule::prefix_bytes(b"order-", "h".into())]);
    assert!(matches!(router.route(&key_ctx(Some(b"event-123"))), RoutingDecision::Defer));
}

#[test]
fn exact_str_match() {
    let router = KeyRouter::new(vec![KeyRule::exact_str("order-123", "h".into())]);
    assert!(is_route_to(&router.route(&key_ctx(Some(b"order-123"))), "h"));
}

#[test]
fn prefix_str_match() {
    let router = KeyRouter::new(vec![KeyRule::prefix_str("order-", "h".into())]);
    assert!(is_route_to(&router.route(&key_ctx(Some(b"order-123"))), "h"));
}

#[test]
fn no_key_defer() {
    let router = KeyRouter::new(vec![KeyRule::exact_bytes(b"order-123", "h".into())]);
    assert!(matches!(router.route(&key_ctx(None)), RoutingDecision::Defer));
}

#[test]
fn invalid_utf8_key_defers_str_matching() {
    let router = KeyRouter::new(vec![KeyRule::prefix_bytes(b"\xff", "h".into())]);
    assert!(is_route_to(&router.route(&key_ctx(Some(&[0xff]))), "h"));
}

#[test]
fn str_rule_defers_on_invalid_utf8_key() {
    let router = KeyRouter::new(vec![KeyRule::prefix_str("order", "h".into())]);
    assert!(matches!(router.route(&key_ctx(Some(&[0xff, 0x6f]))), RoutingDecision::Defer));
}

// ─── Topic pattern router ─────────────────────────────────────────────────────

fn glob_router(patterns: &[(&str, &str)]) -> TopicPatternRouter {
    let rules: Vec<TopicRule> = patterns
        .iter()
        .map(|(p, h)| TopicRule {
            pattern: (*p).into(),
            pattern_type: PatternType::Glob,
            handler_id: (*h).into(),
        })
        .collect();
    TopicPatternRouter::new(rules).unwrap()
}

fn regex_router(patterns: &[(&str, &str)]) -> TopicPatternRouter {
    let rules: Vec<TopicRule> = patterns
        .iter()
        .map(|(p, h)| TopicRule {
            pattern: (*p).into(),
            pattern_type: PatternType::Regex,
            handler_id: (*h).into(),
        })
        .collect();
    TopicPatternRouter::new(rules).unwrap()
}

fn topic_ctx(topic: &str) -> RoutingContext<'_> {
    RoutingContext {
        topic,
        partition: 0,
        offset: 0,
        key: None,
        payload: None,
        headers: &[],
    }
}

#[test]
fn glob_exact_match() {
    let router = glob_router(&[("events", "handler1")]);
    assert!(is_route_to(&router.route(&topic_ctx("events")), "handler1"));
}

#[test]
fn glob_wildcard_match() {
    let router = glob_router(&[("events.*", "handler1")]);
    assert!(is_route_to(&router.route(&topic_ctx("events.us")), "handler1"));
    assert!(is_route_to(&router.route(&topic_ctx("events.eu")), "handler1"));
}

#[test]
fn glob_no_match_defer() {
    let router = glob_router(&[("events.*", "handler1")]);
    assert!(matches!(router.route(&topic_ctx("other")), RoutingDecision::Defer));
}

#[test]
fn glob_first_match_wins() {
    let router = glob_router(&[("events.*", "handler1"), ("events.us", "handler2")]);
    assert!(is_route_to(&router.route(&topic_ctx("events.us")), "handler1"));
}

#[test]
fn regex_match() {
    let router = regex_router(&[(r"^events\..+$", "handler1")]);
    assert!(is_route_to(&router.route(&topic_ctx("events.us")), "handler1"));
    assert!(matches!(router.route(&topic_ctx("events")), RoutingDecision::Defer));
}

#[test]
fn invalid_glob_returns_error() {
    let result = TopicPatternRouter::new(vec![TopicRule {
        pattern: "[".into(),
        pattern_type: PatternType::Glob,
        handler_id: "h".into(),
    }]);
    assert!(result.is_err());
}

#[test]
fn invalid_regex_returns_error() {
    let result = TopicPatternRouter::new(vec![TopicRule {
        pattern: "(?".into(),
        pattern_type: PatternType::Regex,
        handler_id: "h".into(),
    }]);
    assert!(result.is_err());
}

#[test]
fn invalid_pattern_error_message_names_pattern() {
    let err = TopicPatternRouter::new(vec![TopicRule {
        pattern: "[".into(),
        pattern_type: PatternType::Glob,
        handler_id: "h".into(),
    }])
    .err()
    .unwrap();
    assert!(err.message().starts_with("invalid glob pattern '['"));
}

// ─── Chain from configured rules ──────────────────────────────────────────────

#[test]
fn chain_from_rules_routes_in_priority_order() {
    let rules = vec![
        RoutingRule {
            priority: 1,
            topic_rule: None,
            header_rule: None,
            key_rule: Some(KeyRule::exact_bytes(b"k1", "ignored".into())),
            handler_id: "by-key".into(),
        },
        RoutingRule {
            priority: 0,
            topic_rule: Some(TopicRule {
                pattern: "test".into(),
                pattern_type: PatternType::Glob,
                handler_id: "ignored".into(),
            }),
            header_rule: None,
            key_rule: None,
            handler_id: "by-topic".into(),
        },
    ];
    let chain = RoutingChain::from_rules(&rules, HandlerId::from_text("fallback")).ok().unwrap();
    assert!(is_route_to(&chain.route(&ctx()), "by-topic"));
    let other = RoutingContext { topic: "other", key: Some(b"k1"), ..ctx() };
    assert!(is_route_to(&chain.route(&other), "by-key"));
    let none = RoutingContext { topic: "other", ..ctx() };
    assert!(is_route_to(&chain.route(&none), "fallback"));
}

#[test]
fn handler_id_text() {
    let id = HandlerId::new("orders".to_string());
    assert_eq!(id.as_str(), "orders");
    assert!(!id.is_empty());
    assert!(HandlerId::from_text("").is_empty());
    assert_eq!(id.into_string(), "orders");
    assert_eq!(HandlerId::from("payments".to_string()).as_str(), "payments");
    assert_eq!(HandlerId::from("refunds").as_str(), "refunds");
}

#[test]
fn reject_reason_descriptions() {
    assert_eq!(RejectReason::NoMatch.describe(), "no matching routing rule");
    assert_eq!(RejectReason::NoDefaultHandler.describe(), "no default handler configured");
    assert_eq!(RejectReason::Explicit("bad".to_string()).describe(), "rejected: bad");
}

#[test]
fn routing_decision_queries() {
    let d = RoutingDecision::Route("h".into());
    assert_eq!(d.as_route().map(|h| h.as_str()), Some("h"));
    assert!(RoutingDecision::Drop.is_drop());
    assert!(RoutingDecision::Defer.is_defer());
    assert!(RoutingDecision::Drop.as_route().is_none());
}

#[test]
fn default_chain_is_empty_and_unset() {
    let chain: RoutingChain = RoutingChain::default();
    assert_eq!(chain.default_handler().as_str(), "__UNSET__");
}
