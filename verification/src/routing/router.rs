//! The router trait.

use vstd::prelude::*;
use crate::routing::context::RoutingContext;
use crate::routing::decision::RoutingDecision;

verus! {

/// A routing stage: looks at a message and decides, or defers to the next stage.
///
/// Users implement this for their own routers. A router describes the
/// decisions it may answer for a message by `may_decide`; the routers of this
/// library answer exactly one decision per message, while of a router that
/// does not describe itself any decision is possible.
pub trait Router: Send + Sync {
    /// Whether `d` is a decision this router may answer for the message.
    open spec fn may_decide(&self, ctx: &RoutingContext, d: RoutingDecision) -> bool {
        true
    }

    fn route(&self, ctx: &RoutingContext) -> (d: RoutingDecision)
        ensures
            self.may_decide(ctx, d),
    ;
}

} // verus!
