//! Header-based routing: presence of a header, optionally with its value
//! matching a glob.

use vstd::prelude::*;
use vstd::utf8::*;
use vstd::string::StringSliceAdditionalSpecFns;
use crate::routing::context::{first_header_index, header_value, Header, HandlerId, RoutingContext};
use crate::routing::decision::RoutingDecision;
use crate::routing::patterns::{compile_glob, glob_compile_error, glob_is_match, glob_matches};
use crate::routing::router::Router;
use crate::seqs::{first_index, lemma_first_index_at, lemma_first_index_none};
use crate::text::utf8_decode;

verus! {

broadcast use vstd::utf8::encode_utf8_decode_utf8;

/// A header routing rule: the header must be present and, when a value
/// pattern is given, its value must be UTF-8 text matching that glob.
#[derive(Debug)]
pub struct HeaderRule {
    pub key: String,
    pub value_pattern: Option<String>,
    pub handler_id: HandlerId,
}

impl Clone for HeaderRule {
    fn clone(&self) -> (r: Self)
        ensures
            r == *self,
    {
        HeaderRule {
            key: self.key.clone(),
            value_pattern: match &self.value_pattern {
                Some(p) => Some(p.clone()),
                None => None,
            },
            handler_id: self.handler_id.clone(),
        }
    }
}

/// Whether a header rule accepts a message with these headers.
pub open spec fn header_rule_matches(rule: HeaderRule, headers: Seq<Header>) -> bool {
    &&& first_header_index(headers, rule.key@) is Some
    &&& match rule.value_pattern {
        None => true,
        Some(p) => match header_value(headers, rule.key@) {
            None => false,
            Some(v) => glob_compile_error(p@) is None && valid_utf8(v) && glob_matches(
                p@,
                decode_utf8(v),
            ),
        },
    }
}

pub open spec fn header_rule_pred(headers: Seq<Header>) -> spec_fn(HeaderRule) -> bool {
    |r: HeaderRule| header_rule_matches(r, headers)
}

/// The decision of a list of header rules: the handler of the first rule that
/// accepts the headers, otherwise `Defer`.
pub open spec fn header_route(rules: Seq<HeaderRule>, headers: Seq<Header>) -> RoutingDecision {
    match first_index(rules, header_rule_pred(headers)) {
        Some(i) => RoutingDecision::Route(rules[i].handler_id),
        None => RoutingDecision::Defer,
    }
}

/// Routes by message headers; rules are tried in order.
#[derive(Debug, Clone)]
pub struct HeaderRouter {
    rules: Vec<HeaderRule>,
}

impl View for HeaderRouter {
    type V = Seq<HeaderRule>;

    closed spec fn view(&self) -> Seq<HeaderRule> {
        self.rules@
    }
}

impl HeaderRouter {
    pub fn new(rules: Vec<HeaderRule>) -> (r: Self)
        ensures
            r@ == rules@,
    {
        HeaderRouter { rules }
    }

    pub fn rule_count(&self) -> (r: usize)
        ensures
            r == self@.len(),
    {
        self.rules.len()
    }

    /// The handler of the first rule accepting the context's headers, or `Defer`.
    pub fn route_headers(&self, ctx: &RoutingContext) -> (r: RoutingDecision)
        ensures
            r == header_route(self@, ctx.headers@),
    {
        let ghost pred = header_rule_pred(ctx.headers@);
        let mut i: usize = 0;
        while i < self.rules.len()
            invariant
                i <= self.rules@.len(),
                pred == header_rule_pred(ctx.headers@),
                forall|j: int| 0 <= j < i ==> !pred(#[trigger] self.rules@[j]),
            decreases self.rules.len() - i,
        {
            let rule = &self.rules[i];
            if rule_accepts(rule, ctx) {
                proof {
                    assert(pred(self.rules@[i as int]));
                    lemma_first_index_at(self.rules@, pred, i as int);
                }
                return RoutingDecision::Route(rule.handler_id.clone());
            }
            i += 1;
        }
        proof {
            lemma_first_index_none(self.rules@, pred);
        }
        RoutingDecision::Defer
    }
}

fn rule_accepts(rule: &HeaderRule, ctx: &RoutingContext) -> (r: bool)
    ensures
        r == header_rule_matches(*rule, ctx.headers@),
{
    if !ctx.has_header(rule.key.as_str()) {
        return false;
    }
    let pattern = match &rule.value_pattern {
        None => return true,
        Some(p) => p,
    };
    let value = match ctx.get_header(rule.key.as_str()) {
        Some(v) => v,
        None => return false,
    };
    let compiled = match compile_glob(pattern.as_str()) {
        Ok(c) => c,
        Err(_) => return false,
    };
    match utf8_decode(value) {
        Some(text) => {
            proof {
                assert(decode_utf8(encode_utf8(text@)) == text@);
            }
            glob_is_match(&compiled, text)
        },
        None => false,
    }
}

impl Router for HeaderRouter {
    open spec fn may_decide(&self, ctx: &RoutingContext, d: RoutingDecision) -> bool {
        d == header_route(self@, ctx.headers@)
    }

    fn route(&self, ctx: &RoutingContext) -> (d: RoutingDecision) {
        self.route_headers(ctx)
    }
}

} // verus!
