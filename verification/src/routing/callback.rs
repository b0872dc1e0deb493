//! The reply protocol of a routing callback: the callback answers with a
//! string, `"route:<handler>"`, `"drop"`, `"reject:<reason>"` or `"defer"`.

use vstd::prelude::*;
use crate::routing::context::HandlerId;
use crate::routing::decision::{RejectReason, RoutingDecision};
use crate::text::{is_char_prefix, str_eq, strip_prefix};

verus! {

/// `d` is the decision that the callback reply `reply` stands for. An
/// unrecognised reply rejects the message with the reply itself as the reason.
pub open spec fn is_reply_decision(reply: Seq<char>, d: RoutingDecision) -> bool {
    if is_char_prefix("route:"@, reply) {
        d matches RoutingDecision::Route(h) && h@ == reply.subrange(6, reply.len() as int)
    } else if reply == "drop"@ {
        d is Drop
    } else if is_char_prefix("reject:"@, reply) {
        d matches RoutingDecision::Reject(RejectReason::Explicit(m)) && m@ == reply.subrange(
            7,
            reply.len() as int,
        )
    } else if reply == "defer"@ {
        d is Defer
    } else {
        d matches RoutingDecision::Reject(RejectReason::Explicit(m)) && m@ == reply
    }
}

/// Interprets a routing callback's reply.
pub fn parse_reply(reply: &str) -> (d: RoutingDecision)
    ensures
        is_reply_decision(reply@, d),
{
    proof {
        reveal_strlit("route:");
        reveal_strlit("drop");
        reveal_strlit("reject:");
        reveal_strlit("defer");
    }
    if let Some(rest) = strip_prefix(reply, "route:") {
        return RoutingDecision::Route(HandlerId::from_text(rest));
    }
    if str_eq(reply, "drop") {
        return RoutingDecision::Drop;
    }
    if let Some(rest) = strip_prefix(reply, "reject:") {
        return RoutingDecision::Reject(RejectReason::Explicit(String::from_str(rest)));
    }
    if str_eq(reply, "defer") {
        return RoutingDecision::Defer;
    }
    RoutingDecision::Reject(RejectReason::Explicit(String::from_str(reply)))
}

/// The decision when the routing callback raised an error: reject, with the
/// error text as the reason.
pub fn callback_error_decision(message: &str) -> (d: RoutingDecision)
    ensures
        d matches RoutingDecision::Reject(RejectReason::Explicit(m)) && m@ == "python_router_error: "@
            + message@,
{
    let s = String::from_str("python_router_error: ");
    RoutingDecision::Reject(RejectReason::Explicit(s.concat(message)))
}

/// The reply used when the callback's answer is not a string.
pub fn invalid_reply() -> (r: &'static str)
    ensures
        r@ == "reject:python_router_invalid_return"@,
{
    "reject:python_router_invalid_return"
}

/// The decision when the routing callback could not run to completion.
pub fn callback_panic_decision() -> (d: RoutingDecision)
    ensures
        d matches RoutingDecision::Reject(RejectReason::Explicit(m)) && m@ == "python_router_panic"@,
{
    RoutingDecision::Reject(RejectReason::Explicit(String::from_str("python_router_panic")))
}

} // verus!
