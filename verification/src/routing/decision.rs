//! The outcome of a routing evaluation.

use vstd::prelude::*;
use crate::routing::context::HandlerId;

verus! {

/// Why a message was rejected.
#[derive(Debug, Clone, PartialEq, Eq)]
pub enum RejectReason {
    NoMatch,
    NoDefaultHandler,
    Explicit(String),
}

impl RejectReason {
    /// Human-readable description of the reason.
    pub fn describe(&self) -> (r: String)
        ensures
            r@ == self.spec_describe(),
    {
        match self {
            RejectReason::NoMatch => String::from_str("no matching routing rule"),
            RejectReason::NoDefaultHandler => String::from_str("no default handler configured"),
            RejectReason::Explicit(s) => {
                let prefix = String::from_str("rejected: ");
                prefix.concat(s.as_str())
            },
        }
    }

    pub open spec fn spec_describe(&self) -> Seq<char> {
        match self {
            RejectReason::NoMatch => "no matching routing rule"@,
            RejectReason::NoDefaultHandler => "no default handler configured"@,
            RejectReason::Explicit(s) => "rejected: "@ + s@,
        }
    }
}

/// Outcome of routing one message.
#[derive(Debug, Clone, PartialEq, Eq)]
pub enum RoutingDecision {
    /// Route to the handler with this identifier (an internal key, not a topic name).
    Route(HandlerId),
    Drop,
    Reject(RejectReason),
    /// This router has no opinion; the next one decides.
    Defer,
}

impl RoutingDecision {
    pub fn as_route(&self) -> (r: Option<&HandlerId>)
        ensures
            match self {
                RoutingDecision::Route(id) => r == Some(id),
                _ => r is None,
            },
    {
        match self {
            RoutingDecision::Route(id) => Some(id),
            _ => None,
        }
    }

    pub fn is_drop(&self) -> (r: bool)
        ensures
            r == (*self is Drop),
    {
        matches!(self, RoutingDecision::Drop)
    }

    pub fn is_defer(&self) -> (r: bool)
        ensures
            r == (*self is Defer),
    {
        matches!(self, RoutingDecision::Defer)
    }

    /// The default decision, `Defer`.
    pub fn default_decision() -> (r: RoutingDecision)
        ensures
            r is Defer,
    {
        RoutingDecision::Defer
    }
}

} // verus!
