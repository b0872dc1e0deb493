//! Key-based routing: exact or prefix matching on the raw key bytes or on the
//! key decoded as UTF-8.

use vstd::prelude::*;
use vstd::utf8::*;
use vstd::string::StringSliceAdditionalSpecFns;
use crate::routing::context::{opt_bytes, HandlerId, RoutingContext};
use crate::routing::decision::RoutingDecision;
use crate::routing::router::Router;
use crate::seqs::{first_index, lemma_first_index_at, lemma_first_index_none};
use crate::text::{bytes_eq, bytes_starts_with, is_prefix, utf8_decode};

verus! {

/// How a key rule compares the message key with its pattern.
#[derive(Debug, Clone, Copy, PartialEq, Eq, Structural)]
pub enum KeyMatchMode {
    /// Key bytes equal the pattern.
    Exact,
    /// Key bytes begin with the pattern.
    Prefix,
    /// Key is valid UTF-8 and begins with the pattern text (an empty pattern
    /// when the pattern is not valid UTF-8).
    PrefixStr,
    /// Key is valid UTF-8 and equals the pattern.
    ExactStr,
}

/// A key routing rule.
#[derive(Debug)]
pub struct KeyRule {
    pub match_mode: KeyMatchMode,
    pub pattern: Vec<u8>,
    pub handler_id: HandlerId,
}

impl Clone for KeyRule {
    fn clone(&self) -> (r: Self)
        ensures
            r.match_mode == self.match_mode,
            r.pattern@ == self.pattern@,
            r.handler_id == self.handler_id,
    {
        KeyRule {
            match_mode: self.match_mode,
            pattern: vstd::slice::slice_to_vec(self.pattern.as_slice()),
            handler_id: self.handler_id.clone(),
        }
    }
}

/// Whether a rule with this mode and pattern matches this key.
pub open spec fn key_matches(mode: KeyMatchMode, pattern: Seq<u8>, key: Seq<u8>) -> bool {
    match mode {
        KeyMatchMode::Exact => key == pattern,
        KeyMatchMode::Prefix => is_prefix(pattern, key),
        KeyMatchMode::ExactStr => valid_utf8(key) && key == pattern,
        KeyMatchMode::PrefixStr => valid_utf8(key) && (valid_utf8(pattern) ==> is_prefix(
            pattern,
            key,
        )),
    }
}

/// The rule matches this key.
pub open spec fn key_rule_pred(key: Seq<u8>) -> spec_fn(KeyRule) -> bool {
    |r: KeyRule| key_matches(r.match_mode, r.pattern@, key)
}

/// The decision of a list of key rules for a message key: the handler of the
/// first matching rule; `Defer` when there is no key or no rule matches.
pub open spec fn key_route(rules: Seq<KeyRule>, key: Option<Seq<u8>>) -> RoutingDecision {
    match key {
        None => RoutingDecision::Defer,
        Some(k) => match first_index(rules, key_rule_pred(k)) {
            Some(i) => RoutingDecision::Route(rules[i].handler_id),
            None => RoutingDecision::Defer,
        },
    }
}

impl KeyRule {
    pub fn exact_bytes(pattern: &[u8], handler_id: HandlerId) -> (r: Self)
        ensures
            r.match_mode == KeyMatchMode::Exact,
            r.pattern@ == pattern@,
            r.handler_id == handler_id,
    {
        KeyRule {
            match_mode: KeyMatchMode::Exact,
            pattern: vstd::slice::slice_to_vec(pattern),
            handler_id,
        }
    }

    pub fn prefix_bytes(pattern: &[u8], handler_id: HandlerId) -> (r: Self)
        ensures
            r.match_mode == KeyMatchMode::Prefix,
            r.pattern@ == pattern@,
            r.handler_id == handler_id,
    {
        KeyRule {
            match_mode: KeyMatchMode::Prefix,
            pattern: vstd::slice::slice_to_vec(pattern),
            handler_id,
        }
    }

    pub fn exact_str(pattern: &str, handler_id: HandlerId) -> (r: Self)
        ensures
            r.match_mode == KeyMatchMode::ExactStr,
            r.pattern@ == pattern.spec_bytes(),
            r.handler_id == handler_id,
    {
        KeyRule { match_mode: KeyMatchMode::ExactStr, pattern: pattern.as_bytes_vec(), handler_id }
    }

    pub fn prefix_str(pattern: &str, handler_id: HandlerId) -> (r: Self)
        ensures
            r.match_mode == KeyMatchMode::PrefixStr,
            r.pattern@ == pattern.spec_bytes(),
            r.handler_id == handler_id,
    {
        KeyRule { match_mode: KeyMatchMode::PrefixStr, pattern: pattern.as_bytes_vec(), handler_id }
    }

    /// Whether this rule matches the key bytes.
    pub fn matches(&self, key: &[u8]) -> (r: bool)
        ensures
            r == key_matches(self.match_mode, self.pattern@, key@),
    {
        match self.match_mode {
            KeyMatchMode::Exact => bytes_eq(key, self.pattern.as_slice()),
            KeyMatchMode::Prefix => bytes_starts_with(key, self.pattern.as_slice()),
            KeyMatchMode::ExactStr => {
                match utf8_decode(key) {
                    Some(_) => bytes_eq(key, self.pattern.as_slice()),
                    None => false,
                }
            },
            KeyMatchMode::PrefixStr => {
                match utf8_decode(key) {
                    Some(_) => match utf8_decode(self.pattern.as_slice()) {
                        Some(_) => bytes_starts_with(key, self.pattern.as_slice()),
                        None => true,
                    },
                    None => false,
                }
            },
        }
    }
}

/// Routes by message key; rules are tried in order.
#[derive(Debug, Clone)]
pub struct KeyRouter {
    rules: Vec<KeyRule>,
}

impl View for KeyRouter {
    type V = Seq<KeyRule>;

    closed spec fn view(&self) -> Seq<KeyRule> {
        self.rules@
    }
}

impl KeyRouter {
    pub fn new(rules: Vec<KeyRule>) -> (r: Self)
        ensures
            r@ == rules@,
    {
        KeyRouter { rules }
    }

    pub fn rule_count(&self) -> (r: usize)
        ensures
            r == self@.len(),
    {
        self.rules.len()
    }

    /// The handler of the first rule matching the key; `Defer` without a key
    /// or without a match.
    pub fn route_key(&self, key: Option<&[u8]>) -> (r: RoutingDecision)
        ensures
            r == key_route(self@, opt_bytes(key)),
    {
        let k = match key {
            Some(k) => k,
            None => return RoutingDecision::Defer,
        };
        let ghost pred = key_rule_pred(k@);
        let mut i: usize = 0;
        while i < self.rules.len()
            invariant
                i <= self.rules@.len(),
                pred == key_rule_pred(k@),
                opt_bytes(key) == Some(k@),
                forall|j: int| 0 <= j < i ==> !pred(#[trigger] self.rules@[j]),
            decreases self.rules.len() - i,
        {
            let rule = &self.rules[i];
            if rule.matches(k) {
                proof {
                    assert(pred(self.rules@[i as int]));
                    lemma_first_index_at(self.rules@, pred, i as int);
                }
                let h = rule.handler_id.clone();
                return RoutingDecision::Route(h);
            }
            i += 1;
        }
        proof {
            lemma_first_index_none(self.rules@, pred);
        }
        RoutingDecision::Defer
    }
}

impl Router for KeyRouter {
    open spec fn may_decide(&self, ctx: &RoutingContext, d: RoutingDecision) -> bool {
        d == key_route(self@, opt_bytes(ctx.key))
    }

    fn route(&self, ctx: &RoutingContext) -> (d: RoutingDecision) {
        self.route_key(ctx.key)
    }
}

} // verus!
