//! Topic routing by glob or regular-expression patterns.

use vstd::prelude::*;
use crate::routing::context::{HandlerId, RoutingContext};
use crate::routing::decision::RoutingDecision;
use crate::routing::patterns::{
    compile_glob, compile_regex, glob_compile_error, glob_is_match, glob_matches,
    regex_compile_error, regex_is_match, regex_matches, GlobPattern, RegexPattern,
};
use crate::routing::router::Router;
use crate::seqs::{first_index, lemma_first_index_at, lemma_first_index_none};

verus! {

/// Which pattern language a topic rule uses.
#[derive(Debug, Clone, Copy, PartialEq, Eq, Structural)]
pub enum PatternType {
    Glob,
    Regex,
}

/// A topic routing rule.
#[derive(Debug)]
pub struct TopicRule {
    pub pattern: String,
    pub pattern_type: PatternType,
    pub handler_id: HandlerId,
}

impl Clone for TopicRule {
    fn clone(&self) -> (r: Self)
        ensures
            r == *self,
    {
        TopicRule {
            pattern: self.pattern.clone(),
            pattern_type: self.pattern_type,
            handler_id: self.handler_id.clone(),
        }
    }
}

/// A pattern that failed to compile, with the compiler's message.
#[derive(Debug, Clone, PartialEq, Eq)]
pub enum PatternError {
    InvalidGlob(String, String),
    InvalidRegex(String, String),
}

impl PatternError {
    /// The error's display text.
    pub fn message(&self) -> (r: String)
        ensures
            r@ == match self {
                PatternError::InvalidGlob(p, m) => "invalid glob pattern '"@ + p@ + "': "@ + m@,
                PatternError::InvalidRegex(p, m) => "invalid regex pattern '"@ + p@ + "': "@ + m@,
            },
    {
        match self {
            PatternError::InvalidGlob(p, m) => {
                let s = String::from_str("invalid glob pattern '");
                let s = s.concat(p.as_str());
                let s = s.concat("': ");
                s.concat(m.as_str())
            },
            PatternError::InvalidRegex(p, m) => {
                let s = String::from_str("invalid regex pattern '");
                let s = s.concat(p.as_str());
                let s = s.concat("': ");
                s.concat(m.as_str())
            },
        }
    }
}

/// The compile error of a rule's pattern, if it does not compile.
pub open spec fn rule_compile_error(rule: TopicRule) -> Option<Seq<char>> {
    match rule.pattern_type {
        PatternType::Glob => glob_compile_error(rule.pattern@),
        PatternType::Regex => regex_compile_error(rule.pattern@),
    }
}

pub open spec fn rule_fails_pred() -> spec_fn(TopicRule) -> bool {
    |r: TopicRule| rule_compile_error(r) is Some
}

/// Whether a (compiling) rule's pattern accepts the topic.
pub open spec fn topic_rule_matches(rule: TopicRule, topic: Seq<char>) -> bool {
    match rule.pattern_type {
        PatternType::Glob => glob_matches(rule.pattern@, topic),
        PatternType::Regex => regex_matches(rule.pattern@, topic),
    }
}

pub open spec fn topic_rule_pred(topic: Seq<char>) -> spec_fn(TopicRule) -> bool {
    |r: TopicRule| topic_rule_matches(r, topic)
}

/// The decision of a list of topic rules: the handler of the first rule whose
/// pattern accepts the topic, otherwise `Defer`.
pub open spec fn topic_route(rules: Seq<TopicRule>, topic: Seq<char>) -> RoutingDecision {
    match first_index(rules, topic_rule_pred(topic)) {
        Some(i) => RoutingDecision::Route(rules[i].handler_id),
        None => RoutingDecision::Defer,
    }
}

enum CompiledPattern {
    Glob(GlobPattern),
    Regex(RegexPattern),
}

spec fn compiled_for(c: CompiledPattern, rule: TopicRule) -> bool {
    match c {
        CompiledPattern::Glob(g) => rule.pattern_type == PatternType::Glob && g@ == rule.pattern@,
        CompiledPattern::Regex(x) => rule.pattern_type == PatternType::Regex && x@
            == rule.pattern@,
    }
}

/// Routes by topic name; rules are tried in order, each compiled once.
pub struct TopicPatternRouter {
    rules: Vec<TopicRule>,
    compiled: Vec<CompiledPattern>,
}

impl View for TopicPatternRouter {
    type V = Seq<TopicRule>;

    closed spec fn view(&self) -> Seq<TopicRule> {
        self.rules@
    }
}

impl TopicPatternRouter {
    #[verifier::type_invariant]
    spec fn inv(&self) -> bool {
        &&& self.rules@.len() == self.compiled@.len()
        &&& forall|i: int|
            0 <= i < self.rules@.len() ==> compiled_for(
                #[trigger] self.compiled@[i],
                self.rules@[i],
            )
    }

    /// Compiles every rule's pattern. Fails with the error of the first rule
    /// whose pattern does not compile.
    pub fn new(rules: Vec<TopicRule>) -> (r: Result<Self, PatternError>)
        ensures
            match first_index(rules@, rule_fails_pred()) {
                None => r matches Ok(router) && router@ == rules@,
                Some(i) => r matches Err(e) && match rules@[i].pattern_type {
                    PatternType::Glob => e matches PatternError::InvalidGlob(p, m) && p@
                        == rules@[i].pattern@ && Some(m@) == glob_compile_error(
                        rules@[i].pattern@,
                    ),
                    PatternType::Regex => e matches PatternError::InvalidRegex(p, m) && p@
                        == rules@[i].pattern@ && Some(m@) == regex_compile_error(
                        rules@[i].pattern@,
                    ),
                },
            },
    {
        let ghost pred = rule_fails_pred();
        let mut compiled: Vec<CompiledPattern> = Vec::new();
        let mut i: usize = 0;
        while i < rules.len()
            invariant
                i <= rules@.len(),
                pred == rule_fails_pred(),
                compiled@.len() == i,
                forall|j: int| 0 <= j < i ==> !pred(#[trigger] rules@[j]),
                forall|j: int| 0 <= j < i ==> compiled_for(#[trigger] compiled@[j], rules@[j]),
            decreases rules.len() - i,
        {
            let rule = &rules[i];
            match rule.pattern_type {
                PatternType::Glob => match compile_glob(rule.pattern.as_str()) {
                    Ok(g) => compiled.push(CompiledPattern::Glob(g)),
                    Err(m) => {
                        proof {
                            assert(pred(rules@[i as int]));
                            lemma_first_index_at(rules@, pred, i as int);
                        }
                        return Err(PatternError::InvalidGlob(rule.pattern.clone(), m));
                    },
                },
                PatternType::Regex => match compile_regex(rule.pattern.as_str()) {
                    Ok(x) => compiled.push(CompiledPattern::Regex(x)),
                    Err(m) => {
                        proof {
                            assert(pred(rules@[i as int]));
                            lemma_first_index_at(rules@, pred, i as int);
                        }
                        return Err(PatternError::InvalidRegex(rule.pattern.clone(), m));
                    },
                },
            }
            i += 1;
        }
        proof {
            lemma_first_index_none(rules@, pred);
        }
        Ok(TopicPatternRouter { rules, compiled })
    }

    pub fn rule_count(&self) -> (r: usize)
        ensures
            r == self@.len(),
    {
        proof {
            use_type_invariant(self);
        }
        self.rules.len()
    }

    /// The handler of the first rule whose pattern accepts the topic, or `Defer`.
    pub fn route_topic(&self, topic: &str) -> (r: RoutingDecision)
        ensures
            r == topic_route(self@, topic@),
    {
        proof {
            use_type_invariant(self);
        }
        let ghost pred = topic_rule_pred(topic@);
        let mut i: usize = 0;
        while i < self.rules.len()
            invariant
                i <= self.rules@.len(),
                self.rules@.len() == self.compiled@.len(),
                forall|j: int|
                    0 <= j < self.rules@.len() ==> compiled_for(
                        #[trigger] self.compiled@[j],
                        self.rules@[j],
                    ),
                pred == topic_rule_pred(topic@),
                forall|j: int| 0 <= j < i ==> !pred(#[trigger] self.rules@[j]),
            decreases self.rules.len() - i,
        {
            let m = match &self.compiled[i] {
                CompiledPattern::Glob(g) => glob_is_match(g, topic),
                CompiledPattern::Regex(x) => regex_is_match(x, topic),
            };
            proof {
                assert(compiled_for(self.compiled@[i as int], self.rules@[i as int]));
            }
            if m {
                proof {
                    assert(pred(self.rules@[i as int]));
                    lemma_first_index_at(self.rules@, pred, i as int);
                }
                return RoutingDecision::Route(self.rules[i].handler_id.clone());
            }
            i += 1;
        }
        proof {
            lemma_first_index_none(self.rules@, pred);
        }
        RoutingDecision::Defer
    }
}

impl Router for TopicPatternRouter {
    open spec fn may_decide(&self, ctx: &RoutingContext, d: RoutingDecision) -> bool {
        d == topic_route(self@, ctx.topic@)
    }

    fn route(&self, ctx: &RoutingContext) -> (d: RoutingDecision) {
        self.route_topic(ctx.topic)
    }
}

} // verus!
