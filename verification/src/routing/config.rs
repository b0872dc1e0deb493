//! Routing rules as configured, and the assembly of a routing chain from them.

use vstd::prelude::*;
use crate::routing::context::HandlerId;
use crate::routing::header::HeaderRule;
use crate::routing::key::KeyRule;
use crate::routing::topic_pattern::TopicRule;

verus! {

/// A configured routing rule: the conditions it routes on, the handler it
/// routes to and its priority (lower is evaluated first).
#[derive(Debug)]
pub struct RoutingRule {
    pub priority: i32,
    pub topic_rule: Option<TopicRule>,
    pub header_rule: Option<HeaderRule>,
    pub key_rule: Option<KeyRule>,
    pub handler_id: HandlerId,
}

/// Two key rules agree in mode, pattern bytes and handler.
pub open spec fn key_rule_equiv(a: KeyRule, b: KeyRule) -> bool {
    a.match_mode == b.match_mode && a.pattern@ == b.pattern@ && a.handler_id == b.handler_id
}

/// Two routing rules agree in every part (key patterns compared by their bytes).
pub open spec fn rule_equiv(a: RoutingRule, b: RoutingRule) -> bool {
    &&& a.priority == b.priority
    &&& a.topic_rule == b.topic_rule
    &&& a.header_rule == b.header_rule
    &&& a.handler_id == b.handler_id
    &&& match (a.key_rule, b.key_rule) {
        (None, None) => true,
        (Some(x), Some(y)) => key_rule_equiv(x, y),
        _ => false,
    }
}

impl Clone for RoutingRule {
    fn clone(&self) -> (r: Self)
        ensures
            rule_equiv(r, *self),
    {
        RoutingRule {
            priority: self.priority,
            topic_rule: match &self.topic_rule {
                Some(t) => Some(t.clone()),
                None => None,
            },
            header_rule: match &self.header_rule {
                Some(h) => Some(h.clone()),
                None => None,
            },
            key_rule: match &self.key_rule {
                Some(k) => Some(k.clone()),
                None => None,
            },
            handler_id: self.handler_id.clone(),
        }
    }
}

/// `m` occurs among the first `n` entries of `idx`.
pub open spec fn appears_in(idx: Seq<int>, n: int, m: int) -> bool {
    exists|i: int| 0 <= i < n && #[trigger] idx[i] == m
}

/// `idx` witnesses that `output` holds the first `n` rules of `input` in
/// ascending priority, rules of equal priority keeping their input order.
pub open spec fn priority_order_witness(
    input: Seq<RoutingRule>,
    n: int,
    output: Seq<RoutingRule>,
    idx: Seq<int>,
) -> bool {
    &&& output.len() == n && idx.len() == n
    &&& forall|i: int|
        0 <= i < n ==> 0 <= #[trigger] idx[i] < n && rule_equiv(output[i], input[idx[i]])
    &&& forall|m: int| 0 <= m < n ==> #[trigger] appears_in(idx, n, m)
    &&& forall|i: int, j: int|
        0 <= i < j < n ==> (#[trigger] output[i]).priority < (#[trigger] output[j]).priority || (
        output[i].priority == output[j].priority && idx[i] < idx[j])
}

/// `output` is `input` stably sorted by ascending priority.
pub open spec fn sorted_by_priority(input: Seq<RoutingRule>, output: Seq<RoutingRule>) -> bool {
    exists|idx: Seq<int>| priority_order_witness(input, input.len() as int, output, idx)
}

/// The rules stably sorted by ascending priority.
pub fn sort_by_priority(rules: &[RoutingRule]) -> (r: Vec<RoutingRule>)
    ensures
        sorted_by_priority(rules@, r@),
{
    let mut out: Vec<RoutingRule> = Vec::new();
    let ghost mut idx: Seq<int> = seq![];
    let mut k: usize = 0;
    while k < rules.len()
        invariant
            k <= rules@.len(),
            priority_order_witness(rules@, k as int, out@, idx),
        decreases rules.len() - k,
    {
        let p = rules[k].priority;
        let mut pos: usize = 0;
        while pos < out.len() && out[pos].priority <= p
            invariant
                pos <= out@.len(),
                out@.len() == k,
                forall|m: int| 0 <= m < pos ==> (#[trigger] out@[m]).priority <= p,
            decreases out.len() - pos,
        {
            pos += 1;
        }
        let ghost old_out = out@;
        let ghost old_idx = idx;
        proof {
            // everything from `pos` on has a priority above `p`
            assert forall|m: int| pos <= m < k implies (#[trigger] old_out[m]).priority > p by {
                assert(old_out[pos as int].priority > p);
                if m > pos {
                    assert(old_out[pos as int].priority <= old_out[m].priority);
                }
            }
        }
        out.insert(pos, rules[k].clone());
        proof {
            idx = old_idx.insert(pos as int, k as int);
            let n = k + 1;
            assert forall|i: int| 0 <= i < n implies 0 <= #[trigger] idx[i] < n && rule_equiv(
                out@[i],
                rules@[idx[i]],
            ) by {
                if i < pos {
                    assert(idx[i] == old_idx[i]);
                    assert(out@[i] == old_out[i]);
                } else if i > pos {
                    assert(idx[i] == old_idx[i - 1]);
                    assert(out@[i] == old_out[i - 1]);
                }
            }
            assert forall|m: int| 0 <= m < n implies #[trigger] appears_in(idx, n, m) by {
                if m == k {
                    assert(idx[pos as int] == m);
                } else {
                    assert(appears_in(old_idx, k as int, m));
                    let i0 = choose|i: int| 0 <= i < k && #[trigger] old_idx[i] == m;
                    if i0 < pos {
                        assert(idx[i0] == m);
                    } else {
                        assert(idx[i0 + 1] == m);
                    }
                }
            }
            assert forall|i: int, j: int| 0 <= i < j < n implies (#[trigger] out@[i]).priority
                < (#[trigger] out@[j]).priority || (out@[i].priority == out@[j].priority && idx[i]
                < idx[j]) by {
                if j < pos {
                    assert(out@[i] == old_out[i] && out@[j] == old_out[j]);
                } else if j == pos {
                    assert(out@[i] == old_out[i]);
                } else if i == pos {
                    assert(out@[j] == old_out[j - 1]);
                } else if i < pos {
                    assert(out@[i] == old_out[i] && out@[j] == old_out[j - 1]);
                    assert(idx[i] == old_idx[i] && idx[j] == old_idx[j - 1]);
                } else {
                    assert(out@[i] == old_out[i - 1] && out@[j] == old_out[j - 1]);
                    assert(idx[i] == old_idx[i - 1] && idx[j] == old_idx[j - 1]);
                }
            }
        }
        k += 1;
    }
    out
}

/// The topic conditions of the rules, in order, each aimed at its rule's handler.
pub open spec fn topic_rules_of(rules: Seq<RoutingRule>) -> Seq<TopicRule>
    decreases rules.len(),
{
    if rules.len() == 0 {
        seq![]
    } else {
        let rest = topic_rules_of(rules.drop_last());
        let last = rules.last();
        match last.topic_rule {
            Some(t) => rest.push(
                TopicRule {
                    pattern: t.pattern,
                    pattern_type: t.pattern_type,
                    handler_id: last.handler_id,
                },
            ),
            None => rest,
        }
    }
}

/// The header conditions of the rules, in order, each aimed at its rule's handler.
pub open spec fn header_rules_of(rules: Seq<RoutingRule>) -> Seq<HeaderRule>
    decreases rules.len(),
{
    if rules.len() == 0 {
        seq![]
    } else {
        let rest = header_rules_of(rules.drop_last());
        let last = rules.last();
        match last.header_rule {
            Some(h) => rest.push(
                HeaderRule { key: h.key, value_pattern: h.value_pattern, handler_id: last.handler_id },
            ),
            None => rest,
        }
    }
}

/// The key conditions of the rules, in order, each aimed at its rule's handler.
pub open spec fn key_rules_of(rules: Seq<RoutingRule>) -> Seq<KeyRule>
    decreases rules.len(),
{
    if rules.len() == 0 {
        seq![]
    } else {
        let rest = key_rules_of(rules.drop_last());
        let last = rules.last();
        match last.key_rule {
            Some(k) => rest.push(
                KeyRule { match_mode: k.match_mode, pattern: k.pattern, handler_id: last.handler_id },
            ),
            None => rest,
        }
    }
}

/// The two key-rule lists agree element by element.
pub open spec fn key_rules_equiv(a: Seq<KeyRule>, b: Seq<KeyRule>) -> bool {
    a.len() == b.len() && forall|i: int| 0 <= i < a.len() ==> key_rule_equiv(#[trigger] a[i], b[i])
}

/// `t` is the topic condition of `rule`, aimed at `rule`'s own handler.
pub open spec fn topic_rule_from(t: TopicRule, rule: RoutingRule) -> bool {
    rule.topic_rule matches Some(c) && t.pattern == c.pattern && t.pattern_type == c.pattern_type
        && t.handler_id == rule.handler_id
}

/// `h` is the header condition of `rule`, aimed at `rule`'s own handler.
pub open spec fn header_rule_from(h: HeaderRule, rule: RoutingRule) -> bool {
    rule.header_rule matches Some(c) && h.key == c.key && h.value_pattern == c.value_pattern
        && h.handler_id == rule.handler_id
}

/// `k` is the key condition of `rule` (same mode and pattern bytes), aimed
/// at `rule`'s own handler.
pub open spec fn key_rule_from(k: KeyRule, rule: RoutingRule) -> bool {
    rule.key_rule matches Some(c) && k.match_mode == c.match_mode && k.pattern@ == c.pattern@
        && k.handler_id == rule.handler_id
}

/// Every topic condition collected from the rules is the condition of one
/// of the rules, routed to that rule's handler (never to a handler named
/// inside the condition), and every rule with a topic condition gives one,
/// in the rules' order.
pub proof fn law_topic_rules_route_to_their_rule(rules: Seq<RoutingRule>)
    ensures
        topic_rules_of(rules).len() <= rules.len(),
        forall|k: int|
            0 <= k < topic_rules_of(rules).len() ==> exists|j: int|
                0 <= j < rules.len() && topic_rule_from(#[trigger] topic_rules_of(rules)[k], rules[j]),
        forall|j: int|
            0 <= j < rules.len() && (#[trigger] rules[j]).topic_rule is Some ==> exists|k: int|
                0 <= k < topic_rules_of(rules).len() && topic_rule_from(topic_rules_of(rules)[k], rules[j]),
    decreases rules.len(),
{
    if rules.len() > 0 {
        let init = rules.drop_last();
        law_topic_rules_route_to_their_rule(init);
        let prev = topic_rules_of(init);
        let cur = topic_rules_of(rules);
        assert forall|k: int| 0 <= k < cur.len() implies exists|j: int|
            0 <= j < rules.len() && topic_rule_from(#[trigger] cur[k], rules[j]) by {
            if k < prev.len() {
                assert(cur[k] == prev[k]);
                let j = choose|j: int| 0 <= j < init.len() && topic_rule_from(prev[k], init[j]);
                assert(rules[j] == init[j]);
            } else {
                assert(topic_rule_from(cur[k], rules[rules.len() - 1]));
            }
        }
        assert forall|j: int| 0 <= j < rules.len() && (#[trigger] rules[j]).topic_rule is Some implies exists|k: int|
            0 <= k < cur.len() && topic_rule_from(cur[k], rules[j]) by {
            if j < init.len() {
                assert(rules[j] == init[j]);
                let k = choose|k: int| 0 <= k < prev.len() && topic_rule_from(prev[k], init[j]);
                assert(cur[k] == prev[k]);
            } else {
                assert(topic_rule_from(cur[prev.len() as int], rules[j]));
            }
        }
    }
}

/// Every header condition collected from the rules is the condition of one
/// of the rules, routed to that rule's handler (never to a handler named
/// inside the condition), and every rule with a header condition gives one.
pub proof fn law_header_rules_route_to_their_rule(rules: Seq<RoutingRule>)
    ensures
        header_rules_of(rules).len() <= rules.len(),
        forall|k: int|
            0 <= k < header_rules_of(rules).len() ==> exists|j: int|
                0 <= j < rules.len() && header_rule_from(#[trigger] header_rules_of(rules)[k], rules[j]),
        forall|j: int|
            0 <= j < rules.len() && (#[trigger] rules[j]).header_rule is Some ==> exists|k: int|
                0 <= k < header_rules_of(rules).len() && header_rule_from(header_rules_of(rules)[k], rules[j]),
    decreases rules.len(),
{
    if rules.len() > 0 {
        let init = rules.drop_last();
        law_header_rules_route_to_their_rule(init);
        let prev = header_rules_of(init);
        let cur = header_rules_of(rules);
        assert forall|k: int| 0 <= k < cur.len() implies exists|j: int|
            0 <= j < rules.len() && header_rule_from(#[trigger] cur[k], rules[j]) by {
            if k < prev.len() {
                assert(cur[k] == prev[k]);
                let j = choose|j: int| 0 <= j < init.len() && header_rule_from(prev[k], init[j]);
                assert(rules[j] == init[j]);
            } else {
                assert(header_rule_from(cur[k], rules[rules.len() - 1]));
            }
        }
        assert forall|j: int| 0 <= j < rules.len() && (#[trigger] rules[j]).header_rule is Some implies exists|k: int|
            0 <= k < cur.len() && header_rule_from(cur[k], rules[j]) by {
            if j < init.len() {
                assert(rules[j] == init[j]);
                let k = choose|k: int| 0 <= k < prev.len() && header_rule_from(prev[k], init[j]);
                assert(cur[k] == prev[k]);
            } else {
                assert(header_rule_from(cur[prev.len() as int], rules[j]));
            }
        }
    }
}

/// Every key condition collected from the rules is the condition of one of
/// the rules, routed to that rule's handler (never to a handler named inside
/// the condition), and every rule with a key condition gives one.
pub proof fn law_key_rules_route_to_their_rule(rules: Seq<RoutingRule>)
    ensures
        key_rules_of(rules).len() <= rules.len(),
        forall|k: int|
            0 <= k < key_rules_of(rules).len() ==> exists|j: int|
                0 <= j < rules.len() && key_rule_from(#[trigger] key_rules_of(rules)[k], rules[j]),
        forall|j: int|
            0 <= j < rules.len() && (#[trigger] rules[j]).key_rule is Some ==> exists|k: int|
                0 <= k < key_rules_of(rules).len() && key_rule_from(key_rules_of(rules)[k], rules[j]),
    decreases rules.len(),
{
    if rules.len() > 0 {
        let init = rules.drop_last();
        law_key_rules_route_to_their_rule(init);
        let prev = key_rules_of(init);
        let cur = key_rules_of(rules);
        assert forall|k: int| 0 <= k < cur.len() implies exists|j: int|
            0 <= j < rules.len() && key_rule_from(#[trigger] cur[k], rules[j]) by {
            if k < prev.len() {
                assert(cur[k] == prev[k]);
                let j = choose|j: int| 0 <= j < init.len() && key_rule_from(prev[k], init[j]);
                assert(rules[j] == init[j]);
            } else {
                assert(key_rule_from(cur[k], rules[rules.len() - 1]));
            }
        }
        assert forall|j: int| 0 <= j < rules.len() && (#[trigger] rules[j]).key_rule is Some implies exists|k: int|
            0 <= k < cur.len() && key_rule_from(cur[k], rules[j]) by {
            if j < init.len() {
                assert(rules[j] == init[j]);
                let k = choose|k: int| 0 <= k < prev.len() && key_rule_from(prev[k], init[j]);
                assert(cur[k] == prev[k]);
            } else {
                assert(key_rule_from(cur[prev.len() as int], rules[j]));
            }
        }
    }
}

/// The topic conditions of the rules, each aimed at its rule's handler.
pub fn collect_topic_rules(rules: &[RoutingRule]) -> (r: Vec<TopicRule>)
    ensures
        r@ == topic_rules_of(rules@),
        forall|k: int|
            0 <= k < r@.len() ==> exists|j: int| 0 <= j < rules@.len() && topic_rule_from(#[trigger] r@[k], rules@[j]),
        forall|j: int|
            0 <= j < rules@.len() && (#[trigger] rules@[j]).topic_rule is Some ==> exists|k: int|
                0 <= k < r@.len() && topic_rule_from(r@[k], rules@[j]),
{
    let mut out: Vec<TopicRule> = Vec::new();
    let mut i: usize = 0;
    while i < rules.len()
        invariant
            i <= rules@.len(),
            out@ == topic_rules_of(rules@.subrange(0, i as int)),
        decreases rules.len() - i,
    {
        proof {
            assert(rules@.subrange(0, i + 1).drop_last() =~= rules@.subrange(0, i as int));
        }
        if let Some(t) = &rules[i].topic_rule {
            let mut t2 = t.clone();
            t2.handler_id = rules[i].handler_id.clone();
            out.push(t2);
        }
        i += 1;
    }
    proof {
        assert(rules@.subrange(0, rules@.len() as int) =~= rules@);
        law_topic_rules_route_to_their_rule(rules@);
    }
    out
}

/// The header conditions of the rules, each aimed at its rule's handler.
pub fn collect_header_rules(rules: &[RoutingRule]) -> (r: Vec<HeaderRule>)
    ensures
        r@ == header_rules_of(rules@),
        forall|k: int|
            0 <= k < r@.len() ==> exists|j: int| 0 <= j < rules@.len() && header_rule_from(#[trigger] r@[k], rules@[j]),
        forall|j: int|
            0 <= j < rules@.len() && (#[trigger] rules@[j]).header_rule is Some ==> exists|k: int|
                0 <= k < r@.len() && header_rule_from(r@[k], rules@[j]),
{
    let mut out: Vec<HeaderRule> = Vec::new();
    let mut i: usize = 0;
    while i < rules.len()
        invariant
            i <= rules@.len(),
            out@ == header_rules_of(rules@.subrange(0, i as int)),
        decreases rules.len() - i,
    {
        proof {
            assert(rules@.subrange(0, i + 1).drop_last() =~= rules@.subrange(0, i as int));
        }
        if let Some(h) = &rules[i].header_rule {
            let mut h2 = h.clone();
            h2.handler_id = rules[i].handler_id.clone();
            out.push(h2);
        }
        i += 1;
    }
    proof {
        assert(rules@.subrange(0, rules@.len() as int) =~= rules@);
        law_header_rules_route_to_their_rule(rules@);
    }
    out
}

/// The key conditions of the rules, each aimed at its rule's handler.
pub fn collect_key_rules(rules: &[RoutingRule]) -> (r: Vec<KeyRule>)
    ensures
        key_rules_equiv(r@, key_rules_of(rules@)),
        forall|k: int|
            0 <= k < r@.len() ==> exists|j: int| 0 <= j < rules@.len() && key_rule_from(#[trigger] r@[k], rules@[j]),
        forall|j: int|
            0 <= j < rules@.len() && (#[trigger] rules@[j]).key_rule is Some ==> exists|k: int|
                0 <= k < r@.len() && key_rule_from(r@[k], rules@[j]),
{
    let mut out: Vec<KeyRule> = Vec::new();
    let mut i: usize = 0;
    while i < rules.len()
        invariant
            i <= rules@.len(),
            key_rules_equiv(out@, key_rules_of(rules@.subrange(0, i as int))),
        decreases rules.len() - i,
    {
        proof {
            assert(rules@.subrange(0, i + 1).drop_last() =~= rules@.subrange(0, i as int));
        }
        let ghost before = out@;
        if let Some(k) = &rules[i].key_rule {
            let mut k2 = k.clone();
            k2.handler_id = rules[i].handler_id.clone();
            out.push(k2);
            proof {
                let spec = key_rules_of(rules@.subrange(0, i + 1));
                assert forall|j: int| 0 <= j < out@.len() implies key_rule_equiv(
                    #[trigger] out@[j],
                    spec[j],
                ) by {
                    if j < before.len() {
                        assert(out@[j] == before[j]);
                    }
                }
            }
        }
        i += 1;
    }
    proof {
        assert(rules@.subrange(0, rules@.len() as int) =~= rules@);
        let spec = key_rules_of(rules@);
        law_key_rules_route_to_their_rule(rules@);
        assert forall|k: int| 0 <= k < out@.len() implies exists|j: int|
            0 <= j < rules@.len() && key_rule_from(#[trigger] out@[k], rules@[j]) by {
            assert(key_rule_equiv(out@[k], spec[k]));
            let j = choose|j: int| 0 <= j < rules@.len() && key_rule_from(spec[k], rules@[j]);
            assert(key_rule_from(out@[k], rules@[j]));
        }
        assert forall|j: int| 0 <= j < rules@.len() && (#[trigger] rules@[j]).key_rule is Some implies exists|k: int|
            0 <= k < out@.len() && key_rule_from(out@[k], rules@[j]) by {
            let k = choose|k: int| 0 <= k < spec.len() && key_rule_from(spec[k], rules@[j]);
            assert(key_rule_equiv(out@[k], spec[k]));
            assert(key_rule_from(out@[k], rules@[j]));
        }
    }
    out
}

} // verus!
