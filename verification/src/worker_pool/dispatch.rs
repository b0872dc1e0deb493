//! Fan-out dispatch of one message: the outcome recorded for each sink
//! branch, the trace context and execution context of a branch, and the
//! dead-letter entries owed for the branches that failed.

use vstd::prelude::*;
use crate::execution::{ExecutionContext, ExecutionResult};
use crate::failure::{handler_panic_description, FailureCategory, FailureReason};
use crate::message::OwnedMessage;
use crate::observability::tracing::{encode_hex, hex_encode};
use crate::text::{decimal, u64_text};
use crate::seqs::{first_index, lemma_first_index_at, lemma_first_index_none};
use crate::worker_pool::fan_out::BranchResult;

verus! {

/// The outcome recorded for a sink branch from its handler's result: a
/// success or an error as it is, a timeout with its limit, and a rejection
/// as a terminal error with exception "Rejected".
pub fn branch_result_of(result: ExecutionResult) -> (r: BranchResult)
    ensures
        match result {
            ExecutionResult::Success => r is Success,
            ExecutionResult::Error { reason, exception, .. } => r == (BranchResult::Error {
                reason,
                exception,
            }),
            ExecutionResult::Timeout { info } => r == (BranchResult::Timeout {
                timeout_ms: info.timeout_ms,
            }),
            ExecutionResult::Rejected { .. } => r matches BranchResult::Error { reason, exception }
                && reason.category == FailureCategory::Terminal && reason.description@
                == handler_panic_description() && exception@ == "Rejected"@,
        },
{
    match result {
        ExecutionResult::Success => BranchResult::Success,
        ExecutionResult::Error { reason, exception, .. } => BranchResult::Error { reason, exception },
        ExecutionResult::Timeout { info } => BranchResult::Timeout { timeout_ms: info.timeout_ms },
        ExecutionResult::Rejected { .. } => BranchResult::Error {
            reason: FailureReason::handler_panic(),
            exception: String::from_str("Rejected"),
        },
    }
}

/// 16 random bytes, from `rand::random`.
///
/// Trusted only in that it returns: the bytes are random, so nothing is
/// stated about them.
#[verifier::external_body]
fn random_trace_bytes() -> [u8; 16] {
    rand::random()
}

/// 8 random bytes, from `rand::random`.
///
/// Trusted only in that it returns: the bytes are random, so nothing is
/// stated about them.
#[verifier::external_body]
fn random_span_bytes() -> [u8; 8] {
    rand::random()
}

/// The trace id and span id of a fan-out branch: the parent trace id when
/// there is one (all branches of a dispatch share it), otherwise the given
/// trace bytes in hexadecimal; and the given span bytes in hexadecimal.
pub fn branch_trace_ids_from(parent: Option<&str>, trace_bytes: &[u8], span_bytes: &[u8]) -> (r: (
    String,
    String,
))
    ensures
        r.0@ == match parent {
            Some(p) => p@,
            None => hex_encode(trace_bytes@),
        },
        r.1@ == hex_encode(span_bytes@),
{
    let trace_id = match parent {
        Some(p) => String::from_str(p),
        None => encode_hex(trace_bytes),
    };
    (trace_id, encode_hex(span_bytes))
}

/// The trace id shared by every branch of one dispatch: the parent's when
/// there is one, otherwise a fresh random one of 32 hexadecimal digits.
pub fn dispatch_trace_id(parent: Option<&str>) -> (r: String)
    ensures
        parent matches Some(p) ==> r@ == p@,
        parent is None ==> exists|b: Seq<u8>| b.len() == 16 && r@ == hex_encode(b),
{
    match parent {
        Some(p) => String::from_str(p),
        None => {
            let trace_bytes = random_trace_bytes();
            proof {
                assert(trace_bytes@.len() == 16);
            }
            encode_hex(&trace_bytes)
        },
    }
}

/// The trace id and span id of a new fan-out branch, with fresh random
/// bytes where the parent gives none: the parent trace id is kept, a new
/// trace id has 32 hexadecimal digits and the span id 16.
pub fn branch_trace_ids(parent: Option<&str>) -> (r: (String, String))
    ensures
        parent matches Some(p) ==> r.0@ == p@,
        parent is None ==> exists|b: Seq<u8>| b.len() == 16 && r.0@ == hex_encode(b),
        exists|b: Seq<u8>| b.len() == 8 && r.1@ == hex_encode(b),
{
    let trace_bytes = random_trace_bytes();
    let span_bytes = random_span_bytes();
    let r = branch_trace_ids_from(parent, &trace_bytes, &span_bytes);
    proof {
        assert(trace_bytes@.len() == 16);
        assert(span_bytes@.len() == 8);
    }
    r
}

/// The execution context of a fan-out branch: the sink topic at the
/// message's position, the branch's trace context with flags "01", and the
/// branch and dispatch ids.
pub fn branch_context(
    sink_topic: String,
    msg: &OwnedMessage,
    worker_id: usize,
    trace_id: String,
    span_id: String,
    branch_id: u64,
    fan_out_id: u64,
) -> (r: ExecutionContext)
    ensures
        r.topic == sink_topic,
        r.partition == msg.partition,
        r.offset == msg.offset,
        r.worker_id == worker_id,
        r.trace_id == Some(trace_id),
        r.span_id == Some(span_id),
        r.trace_flags matches Some(f) && f@ == "01"@,
        r.branch_id == Some(branch_id),
        r.fan_out_id == Some(fan_out_id),
        r.source_topic@.len() == 0,
        r.fan_in_id is None,
{
    proof {
        reveal_strlit("01");
    }
    ExecutionContext::with_trace(
        sink_topic,
        msg.partition,
        msg.offset,
        worker_id,
        Some(trace_id),
        Some(span_id),
        Some(String::from_str("01")),
        Some(branch_id),
        Some(fan_out_id),
        String::new(),
        None,
    )
}

/// The exception text recorded for a sink that timed out.
pub open spec fn timeout_exception(timeout_ms: u64) -> Seq<char> {
    "sink timeout after "@ + decimal(timeout_ms as nat) + "ms"@
}

/// Writes the exception text of a sink timeout.
pub fn sink_timeout_text(timeout_ms: u64) -> (r: String)
    ensures
        r@ == timeout_exception(timeout_ms),
{
    let mut s = String::from_str("sink timeout after ");
    let n = u64_text(timeout_ms);
    s.append(n.as_str());
    s.append("ms");
    s
}

/// A dead-letter entry owed for a failed fan-out branch.
#[derive(Debug)]
pub struct BranchDeadLetter {
    /// The sink's topic, used as the entry's topic.
    pub sink_topic: String,
    pub branch_id: u64,
    /// The exception, or the timeout text.
    pub exception: String,
    /// The timeout, for a branch that timed out.
    pub timeout_ms: Option<u64>,
}

/// A dead-letter entry as values: sink topic, branch id, exception, timeout.
pub type DeadLetterView = (Seq<char>, u64, Seq<char>, Option<u64>);

pub open spec fn dead_letter_view(d: BranchDeadLetter) -> DeadLetterView {
    (d.sink_topic@, d.branch_id, d.exception@, d.timeout_ms)
}

pub open spec fn binding_pred(id: u64) -> spec_fn((u64, String)) -> bool {
    |e: (u64, String)| e.0 == id
}

/// The topic of the sink whose branch has id `id`: the first binding of that
/// id, if any.
pub open spec fn sink_topic_of(bindings: Seq<(u64, String)>, id: u64) -> Option<Seq<char>> {
    match first_index(bindings, binding_pred(id)) {
        Some(i) => Some(bindings[i].1@),
        None => None,
    }
}

/// The dead-letter entries owed after a dispatch, in the order the outcomes
/// were recorded: each branch that did not succeed owes one entry naming the
/// topic of its own sink (found by branch id in `bindings`), with its
/// exception, or the timeout text and the timeout. A branch id bound to no
/// sink owes nothing.
pub open spec fn branch_dead_letters_spec(
    results: Seq<(u64, BranchResult)>,
    bindings: Seq<(u64, String)>,
) -> Seq<DeadLetterView>
    decreases results.len(),
{
    if results.len() == 0 {
        seq![]
    } else {
        let prev = branch_dead_letters_spec(results.drop_last(), bindings);
        let (id, outcome) = results.last();
        match sink_topic_of(bindings, id) {
            None => prev,
            Some(topic) => match outcome {
                BranchResult::Success => prev,
                BranchResult::Error { exception, .. } => prev.push((topic, id, exception@, None)),
                BranchResult::Timeout { timeout_ms } => prev.push(
                    (topic, id, timeout_exception(timeout_ms), Some(timeout_ms)),
                ),
            },
        }
    }
}

/// The sink topic bound to a branch id.
fn sink_topic_for(bindings: &[(u64, String)], id: u64) -> (r: Option<&String>)
    ensures
        match first_index(bindings@, binding_pred(id)) {
            Some(i) => r == Some(&bindings@[i].1),
            None => r is None,
        },
{
    let mut i: usize = 0;
    while i < bindings.len()
        invariant
            i <= bindings@.len(),
            forall|j: int| 0 <= j < i ==> !binding_pred(id)(#[trigger] bindings@[j]),
        decreases bindings.len() - i,
    {
        if bindings[i].0 == id {
            proof {
                lemma_first_index_at(bindings@, binding_pred(id), i as int);
            }
            return Some(&bindings[i].1);
        }
        i += 1;
    }
    proof {
        lemma_first_index_none(bindings@, binding_pred(id));
    }
    None
}

/// Lists the dead-letter entries owed for the failed branches of a dispatch,
/// each under the topic of the sink its branch ran.
pub fn branch_dead_letters(results: &[(u64, BranchResult)], bindings: &[(u64, String)]) -> (r: Vec<
    BranchDeadLetter,
>)
    ensures
        r@.map_values(|d: BranchDeadLetter| dead_letter_view(d)) == branch_dead_letters_spec(
            results@,
            bindings@,
        ),
{
    let mut out: Vec<BranchDeadLetter> = Vec::new();
    let mut i: usize = 0;
    proof {
        assert(results@.subrange(0, 0) =~= Seq::<(u64, BranchResult)>::empty());
        assert(out@.map_values(|d: BranchDeadLetter| dead_letter_view(d)) =~= Seq::<DeadLetterView>::empty());
    }
    while i < results.len()
        invariant
            i <= results@.len(),
            out@.map_values(|d: BranchDeadLetter| dead_letter_view(d)) == branch_dead_letters_spec(
                results@.subrange(0, i as int),
                bindings@,
            ),
        decreases results.len() - i,
    {
        let ghost rs = results@.subrange(0, i + 1);
        proof {
            assert(rs.drop_last() =~= results@.subrange(0, i as int));
            assert(rs.last() == results@[i as int]);
        }
        let (id, outcome) = &results[i];
        match sink_topic_for(bindings, *id) {
            None => {},
            Some(topic) => match outcome {
                BranchResult::Success => {},
                BranchResult::Error { exception, .. } => {
                    out.push(
                        BranchDeadLetter {
                            sink_topic: topic.clone(),
                            branch_id: *id,
                            exception: exception.clone(),
                            timeout_ms: None,
                        },
                    );
                },
                BranchResult::Timeout { timeout_ms } => {
                    out.push(
                        BranchDeadLetter {
                            sink_topic: topic.clone(),
                            branch_id: *id,
                            exception: sink_timeout_text(*timeout_ms),
                            timeout_ms: Some(*timeout_ms),
                        },
                    );
                },
            },
        }
        proof {
            assert(out@.map_values(|d: BranchDeadLetter| dead_letter_view(d)) =~= branch_dead_letters_spec(rs, bindings@));
        }
        i += 1;
    }
    proof {
        assert(results@.subrange(0, i as int) =~= results@);
    }
    out
}

} // verus!
