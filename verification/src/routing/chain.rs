//! The routing chain: topic pattern, then header, then key, then callback
//! router, then the default handler.

use vstd::prelude::*;
use crate::routing::context::{HandlerId, RoutingContext};
use crate::routing::decision::{RejectReason, RoutingDecision};
use crate::routing::router::Router;
use crate::routing::config::{
    collect_header_rules, collect_key_rules, collect_topic_rules, header_rules_of, key_rules_equiv,
    key_rules_of, sort_by_priority, sorted_by_priority, topic_rules_of, RoutingRule,
};
use crate::routing::header::HeaderRouter;
use crate::routing::key::KeyRouter;
use crate::routing::topic_pattern::{rule_fails_pred, PatternError, TopicPatternRouter};
use crate::seqs::first_index;

verus! {

/// Placeholder text of a chain whose default handler was never set.
pub open spec fn unset_handler_text() -> Seq<char> {
    "__UNSET__"@
}

/// What the chain answers once every router has deferred: the default
/// handler, or `Reject(NoDefaultHandler)` when none was configured.
pub open spec fn fallback_decision(default_handler: HandlerId, d: RoutingDecision) -> bool {
    if default_handler@ == unset_handler_text() {
        d == RoutingDecision::Reject(RejectReason::NoDefaultHandler)
    } else {
        d == RoutingDecision::Route(default_handler)
    }
}

/// An empty router slot; it defers on every message.
#[derive(Debug, Clone, Copy)]
pub struct NoRouter;

impl Router for NoRouter {
    open spec fn may_decide(&self, ctx: &RoutingContext, d: RoutingDecision) -> bool {
        d is Defer
    }

    fn route(&self, ctx: &RoutingContext) -> (d: RoutingDecision) {
        RoutingDecision::Defer
    }
}

/// Routers in precedence order, with a required default handler.
///
/// Each slot's router type is a parameter of the chain; an unset slot holds
/// nothing and is skipped.
pub struct RoutingChain<T = NoRouter, H = NoRouter, K = NoRouter, P = NoRouter> {
    topic_router: Option<T>,
    header_router: Option<H>,
    key_router: Option<K>,
    python_router: Option<P>,
    default_handler: HandlerId,
}

impl RoutingChain<NoRouter, NoRouter, NoRouter, NoRouter> {
    /// An empty chain; a default handler must be set before routing.
    pub fn new() -> (r: Self)
        ensures
            r.is_bare(),
            r.spec_default_handler()@ == unset_handler_text(),
    {
        proof {
            reveal_strlit("__UNSET__");
        }
        RoutingChain {
            topic_router: None,
            header_router: None,
            key_router: None,
            python_router: None,
            default_handler: HandlerId::from_text("__UNSET__"),
        }
    }
}

impl Default for RoutingChain {
    /// An empty chain, as `new` gives.
    fn default() -> (r: Self)
        ensures
            r.is_bare(),
            r.spec_default_handler()@ == unset_handler_text(),
    {
        Self::new()
    }
}

impl<T, H, K, P> RoutingChain<T, H, K, P> {
    pub closed spec fn topic_slot(&self) -> Option<T> {
        self.topic_router
    }

    pub open spec fn has_topic_router(&self) -> bool {
        self.topic_slot() is Some
    }

    pub closed spec fn header_slot(&self) -> Option<H> {
        self.header_router
    }

    pub open spec fn has_header_router(&self) -> bool {
        self.header_slot() is Some
    }

    pub closed spec fn key_slot(&self) -> Option<K> {
        self.key_router
    }

    pub open spec fn has_key_router(&self) -> bool {
        self.key_slot() is Some
    }

    pub closed spec fn python_slot(&self) -> Option<P> {
        self.python_router
    }

    pub open spec fn has_python_router(&self) -> bool {
        self.python_slot() is Some
    }

    pub closed spec fn spec_default_handler(&self) -> HandlerId {
        self.default_handler
    }

    /// No router is configured.
    pub open spec fn is_bare(&self) -> bool {
        !self.has_topic_router() && !self.has_header_router() && !self.has_key_router()
            && !self.has_python_router()
    }

    /// Sets the topic pattern router (first in the chain).
    pub fn with_topic_router<R: Router>(self, router: R) -> (r: RoutingChain<R, H, K, P>)
        ensures
            r.topic_slot() == Some(router),
            r.header_slot() == self.header_slot(),
            r.key_slot() == self.key_slot(),
            r.python_slot() == self.python_slot(),
            r.spec_default_handler() == self.spec_default_handler(),
    {
        RoutingChain {
            topic_router: Some(router),
            header_router: self.header_router,
            key_router: self.key_router,
            python_router: self.python_router,
            default_handler: self.default_handler,
        }
    }

    /// Sets the header router (second in the chain).
    pub fn with_header_router<R: Router>(self, router: R) -> (r: RoutingChain<T, R, K, P>)
        ensures
            r.header_slot() == Some(router),
            r.topic_slot() == self.topic_slot(),
            r.key_slot() == self.key_slot(),
            r.python_slot() == self.python_slot(),
            r.spec_default_handler() == self.spec_default_handler(),
    {
        RoutingChain {
            topic_router: self.topic_router,
            header_router: Some(router),
            key_router: self.key_router,
            python_router: self.python_router,
            default_handler: self.default_handler,
        }
    }

    /// Sets the key router (third in the chain).
    pub fn with_key_router<R: Router>(self, router: R) -> (r: RoutingChain<T, H, R, P>)
        ensures
            r.key_slot() == Some(router),
            r.topic_slot() == self.topic_slot(),
            r.header_slot() == self.header_slot(),
            r.python_slot() == self.python_slot(),
            r.spec_default_handler() == self.spec_default_handler(),
    {
        RoutingChain {
            topic_router: self.topic_router,
            header_router: self.header_router,
            key_router: Some(router),
            python_router: self.python_router,
            default_handler: self.default_handler,
        }
    }

    /// Sets the callback router (fourth in the chain); without it that slot is skipped.
    pub fn with_python_router<R: Router>(self, router: R) -> (r: RoutingChain<T, H, K, R>)
        ensures
            r.python_slot() == Some(router),
            r.topic_slot() == self.topic_slot(),
            r.header_slot() == self.header_slot(),
            r.key_slot() == self.key_slot(),
            r.spec_default_handler() == self.spec_default_handler(),
    {
        RoutingChain {
            topic_router: self.topic_router,
            header_router: self.header_router,
            key_router: self.key_router,
            python_router: Some(router),
            default_handler: self.default_handler,
        }
    }

    /// Sets the default handler, answered when every router defers.
    pub fn with_default_handler(self, handler: HandlerId) -> (r: Self)
        ensures
            r.spec_default_handler() == handler,
            r.topic_slot() == self.topic_slot(),
            r.header_slot() == self.header_slot(),
            r.key_slot() == self.key_slot(),
            r.python_slot() == self.python_slot(),
    {
        RoutingChain { default_handler: handler, ..self }
    }

    /// The configured default handler.
    pub fn default_handler(&self) -> (r: &HandlerId)
        ensures
            *r == self.spec_default_handler(),
    {
        &self.default_handler
    }

    /// The decision once every router has deferred.
    pub fn fallback(&self) -> (d: RoutingDecision)
        ensures
            fallback_decision(self.spec_default_handler(), d),
    {
        proof {
            reveal_strlit("__UNSET__");
        }
        if crate::text::str_eq(self.default_handler.as_str(), "__UNSET__") {
            RoutingDecision::Reject(RejectReason::NoDefaultHandler)
        } else {
            RoutingDecision::Route(self.default_handler.clone())
        }
    }
}

/// `d` is a decision the router in this slot may answer; an empty slot defers.
pub open spec fn slot_may<R: Router>(slot: Option<R>, ctx: &RoutingContext, d: RoutingDecision) -> bool {
    match slot {
        Some(r) => r.may_decide(ctx, d),
        None => d is Defer,
    }
}

impl<T: Router, H: Router, K: Router, P: Router> RoutingChain<T, H, K, P> {
    /// `d` is an answer of the chain: the first router, in precedence order
    /// (topic pattern, header, key, callback), that does not defer decides;
    /// when every router defers or is unset, the fallback decides.
    pub open spec fn chain_answers(&self, ctx: &RoutingContext, d: RoutingDecision) -> bool {
        let t = self.topic_slot();
        let h = self.header_slot();
        let k = self.key_slot();
        let p = self.python_slot();
        let defer = RoutingDecision::Defer;
        ||| !(d is Defer) && slot_may(t, ctx, d)
        ||| !(d is Defer) && slot_may(t, ctx, defer) && slot_may(h, ctx, d)
        ||| !(d is Defer) && slot_may(t, ctx, defer) && slot_may(h, ctx, defer) && slot_may(k, ctx, d)
        ||| !(d is Defer) && slot_may(t, ctx, defer) && slot_may(h, ctx, defer) && slot_may(k, ctx, defer)
            && slot_may(p, ctx, d)
        ||| slot_may(t, ctx, defer) && slot_may(h, ctx, defer) && slot_may(k, ctx, defer)
            && slot_may(p, ctx, defer) && fallback_decision(self.spec_default_handler(), d)
    }

    /// Evaluates the routers in precedence order and returns the first decision
    /// that is not `Defer`; when all defer (or none is set), the fallback.
    pub fn route(&self, ctx: &RoutingContext) -> (d: RoutingDecision)
        ensures
            !(d is Defer),
            self.chain_answers(ctx, d),
            self.is_bare() ==> fallback_decision(self.spec_default_handler(), d),
    {
        if let Some(router) = &self.topic_router {
            let d = router.route(ctx);
            if !d.is_defer() {
                return d;
            }
        }
        if let Some(router) = &self.header_router {
            let d = router.route(ctx);
            if !d.is_defer() {
                return d;
            }
        }
        if let Some(router) = &self.key_router {
            let d = router.route(ctx);
            if !d.is_defer() {
                return d;
            }
        }
        if let Some(router) = &self.python_router {
            let d = router.route(ctx);
            if !d.is_defer() {
                return d;
            }
        }
        self.fallback()
    }
}

/// The first of the routers' decisions, in chain order, that is not `Defer`.
pub open spec fn first_decision(
    topic: RoutingDecision,
    header: RoutingDecision,
    key: RoutingDecision,
    callback: RoutingDecision,
) -> Option<RoutingDecision> {
    if !(topic is Defer) {
        Some(topic)
    } else if !(header is Defer) {
        Some(header)
    } else if !(key is Defer) {
        Some(key)
    } else if !(callback is Defer) {
        Some(callback)
    } else {
        None
    }
}

/// Precedence law of the chain: when each slot answers one decision for the
/// message (an empty slot defers), the chain's answer is the first of them,
/// in the order topic pattern, header, key, callback, that is not `Defer`;
/// when all defer, it is the default handler (or `Reject(NoDefaultHandler)`
/// when none was set). So a later router never overrides an earlier one, a
/// replaced router no longer counts, and an empty slot is skipped.
pub proof fn law_first_non_defer_decides<T: Router, H: Router, K: Router, P: Router>(
    chain: RoutingChain<T, H, K, P>,
    ctx: RoutingContext,
    topic: RoutingDecision,
    header: RoutingDecision,
    key: RoutingDecision,
    callback: RoutingDecision,
    d: RoutingDecision,
)
    requires
        forall|x: RoutingDecision| #[trigger] slot_may(chain.topic_slot(), &ctx, x) <==> x == topic,
        forall|x: RoutingDecision| #[trigger] slot_may(chain.header_slot(), &ctx, x) <==> x == header,
        forall|x: RoutingDecision| #[trigger] slot_may(chain.key_slot(), &ctx, x) <==> x == key,
        forall|x: RoutingDecision| #[trigger] slot_may(chain.python_slot(), &ctx, x) <==> x == callback,
        chain.chain_answers(&ctx, d),
    ensures
        match first_decision(topic, header, key, callback) {
            Some(x) => d == x,
            None => fallback_decision(chain.spec_default_handler(), d),
        },
{
    let defer = RoutingDecision::Defer;
    assert(slot_may(chain.topic_slot(), &ctx, d) == (d == topic));
    assert(slot_may(chain.header_slot(), &ctx, d) == (d == header));
    assert(slot_may(chain.key_slot(), &ctx, d) == (d == key));
    assert(slot_may(chain.python_slot(), &ctx, d) == (d == callback));
    assert(slot_may(chain.topic_slot(), &ctx, defer) == (defer == topic));
    assert(slot_may(chain.header_slot(), &ctx, defer) == (defer == header));
    assert(slot_may(chain.key_slot(), &ctx, defer) == (defer == key));
    assert(slot_may(chain.python_slot(), &ctx, defer) == (defer == callback));
}

/// `chain` is what the stably sorted rules `sorted` configure: each router is
/// set exactly when it has rules, and holds those rules in order.
pub open spec fn chain_from_sorted_rules(
    sorted: Seq<RoutingRule>,
    default_handler: HandlerId,
    r: Result<RoutingChain<TopicPatternRouter, HeaderRouter, KeyRouter, NoRouter>, PatternError>,
) -> bool {
    let topics = topic_rules_of(sorted);
    let headers = header_rules_of(sorted);
    let keys = key_rules_of(sorted);
    match first_index(topics, rule_fails_pred()) {
        Some(_) => r is Err,
        None => r matches Ok(chain) && {
            &&& chain.spec_default_handler() == default_handler
            &&& chain.python_slot() is None
            &&& match chain.topic_slot() {
                Some(t) => topics.len() > 0 && t@ == topics,
                None => topics.len() == 0,
            }
            &&& match chain.header_slot() {
                Some(h) => headers.len() > 0 && h@ == headers,
                None => headers.len() == 0,
            }
            &&& match chain.key_slot() {
                Some(k) => keys.len() > 0 && key_rules_equiv(k@, keys),
                None => keys.len() == 0,
            }
        },
    }
}

impl RoutingChain<TopicPatternRouter, HeaderRouter, KeyRouter, NoRouter> {
    /// Builds a routing chain from configured rules: the rules are stably
    /// sorted by priority; each kind of condition feeds its router, which is
    /// set only when it has at least one rule. Fails when a topic pattern does
    /// not compile. The callback slot stays empty.
    pub fn from_rules(rules: &[RoutingRule], default_handler: HandlerId) -> (r: Result<
        Self,
        PatternError,
    >)
        ensures
            exists|sorted: Seq<RoutingRule>|
                #![trigger sorted_by_priority(rules@, sorted)]
                sorted_by_priority(rules@, sorted) && chain_from_sorted_rules(
                    sorted,
                    default_handler,
                    r,
                ),
    {
        let sorted = sort_by_priority(rules);
        let topic_rules = collect_topic_rules(sorted.as_slice());
        let header_rules = collect_header_rules(sorted.as_slice());
        let key_rules = collect_key_rules(sorted.as_slice());
        let ghost topics = topic_rules@;
        let topic_router = if topic_rules.len() > 0 {
            match TopicPatternRouter::new(topic_rules) {
                Ok(t) => Some(t),
                Err(e) => {
                    let r = Err(e);
                    assert(sorted_by_priority(rules@, sorted@) && chain_from_sorted_rules(
                        sorted@,
                        default_handler,
                        r,
                    ));
                    return r;
                },
            }
        } else {
            None
        };
        let header_router = if header_rules.len() > 0 {
            Some(HeaderRouter::new(header_rules))
        } else {
            None
        };
        let key_router = if key_rules.len() > 0 {
            Some(KeyRouter::new(key_rules))
        } else {
            None
        };
        let r = Ok(
            RoutingChain {
                topic_router,
                header_router,
                key_router,
                python_router: None,
                default_handler,
            },
        );
        proof {
            if topics.len() == 0 {
                assert(first_index(topics, rule_fails_pred()) is None);
            }
        }
        assert(sorted_by_priority(rules@, sorted@) && chain_from_sorted_rules(
            sorted@,
            default_handler,
            r,
        ));
        r
    }
}

} // verus!
