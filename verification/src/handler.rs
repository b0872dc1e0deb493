//! Handler configuration: execution modes, batch policies and how per-handler
//! settings combine with the consumer's defaults.

use vstd::prelude::*;
use crate::text::str_eq;

verus! {

/// How a handler is invoked.
#[derive(Debug, Clone, Copy, PartialEq, Eq, Structural)]
pub enum HandlerMode {
    /// One message at a time, synchronously.
    SingleSync,
    /// One message at a time, as a coroutine.
    SingleAsync,
    /// Batches of messages, synchronously.
    BatchSync,
    /// Batches of messages, as a coroutine.
    BatchAsync,
}

impl HandlerMode {
    /// The default mode, `SingleSync`.
    pub fn default_mode() -> (r: HandlerMode)
        ensures
            r == HandlerMode::SingleSync,
    {
        HandlerMode::SingleSync
    }

    /// The mode's name, used as a metrics label.
    pub fn as_str(&self) -> (r: &'static str)
        ensures
            r@ == match *self {
                HandlerMode::SingleSync => "SingleSync"@,
                HandlerMode::SingleAsync => "SingleAsync"@,
                HandlerMode::BatchSync => "BatchSync"@,
                HandlerMode::BatchAsync => "BatchAsync"@,
            },
    {
        match self {
            HandlerMode::SingleSync => "SingleSync",
            HandlerMode::SingleAsync => "SingleAsync",
            HandlerMode::BatchSync => "BatchSync",
            HandlerMode::BatchAsync => "BatchAsync",
        }
    }

    /// Parses a mode name: "async", "batch_sync", "batch_async"; anything
    /// else, or no name, is `SingleSync`.
    pub fn from_opt_str(s: Option<&str>) -> (r: HandlerMode)
        ensures
            r == match s {
                Some(t) => if t@ == "async"@ {
                    HandlerMode::SingleAsync
                } else if t@ == "batch_sync"@ {
                    HandlerMode::BatchSync
                } else if t@ == "batch_async"@ {
                    HandlerMode::BatchAsync
                } else {
                    HandlerMode::SingleSync
                },
                None => HandlerMode::SingleSync,
            },
    {
        match s {
            Some(t) => if str_eq(t, "async") {
                HandlerMode::SingleAsync
            } else if str_eq(t, "batch_sync") {
                HandlerMode::BatchSync
            } else if str_eq(t, "batch_async") {
                HandlerMode::BatchAsync
            } else {
                HandlerMode::SingleSync
            },
            None => HandlerMode::SingleSync,
        }
    }

    /// Whether the mode hands the handler batches.
    pub fn is_batch(&self) -> (r: bool)
        ensures
            r == (*self == HandlerMode::BatchSync || *self == HandlerMode::BatchAsync),
    {
        match self {
            HandlerMode::BatchSync | HandlerMode::BatchAsync => true,
            _ => false,
        }
    }
}

/// Batch limits of a batch handler.
#[derive(Debug, Clone, Copy, PartialEq, Eq, Structural)]
pub struct BatchPolicy {
    pub max_batch_size: usize,
    pub max_batch_wait_ms: u64,
}

impl BatchPolicy {
    /// The default policy: batches of one, flushed at once.
    pub fn default_policy() -> (r: BatchPolicy)
        ensures
            r.max_batch_size == 1,
            r.max_batch_wait_ms == 0,
    {
        BatchPolicy { max_batch_size: 1, max_batch_wait_ms: 0 }
    }
}

/// Wait used for a batch handler registered without a wait.
pub const DEFAULT_BATCH_WAIT_MS: u64 = 1000;

/// Workers started when the consumer does not say how many.
pub const DEFAULT_NUM_WORKERS: usize = 4;

/// The timeout of a handler: its own, else the consumer-wide one, else none.
pub fn resolve_timeout_ms(handler_timeout_ms: Option<u64>, default_timeout_ms: Option<u64>) -> (r:
    Option<u64>)
    ensures
        r == match handler_timeout_ms {
            Some(t) => Some(t),
            None => default_timeout_ms,
        },
{
    match handler_timeout_ms {
        Some(t) => Some(t),
        None => default_timeout_ms,
    }
}

/// Batch size used for a batch handler registered without a size.
pub const DEFAULT_BATCH_MAX_SIZE: usize = 100;

/// The batch policy of a handler: the given batch size, else
/// `DEFAULT_BATCH_MAX_SIZE`, with the given wait, else `DEFAULT_BATCH_WAIT_MS`.
pub fn resolve_batch_policy(batch_max_size: Option<usize>, batch_max_wait_ms: Option<u64>) -> (r:
    Option<BatchPolicy>)
    ensures
        r == Some(
            BatchPolicy {
                max_batch_size: match batch_max_size {
                    Some(n) => n,
                    None => DEFAULT_BATCH_MAX_SIZE,
                },
                max_batch_wait_ms: match batch_max_wait_ms {
                    Some(w) => w,
                    None => DEFAULT_BATCH_WAIT_MS,
                },
            },
        ),
{
    let max_batch_size: usize = match batch_max_size {
        Some(n) => n,
        None => DEFAULT_BATCH_MAX_SIZE,
    };
    let max_batch_wait_ms: u64 = match batch_max_wait_ms {
        Some(w) => w,
        None => DEFAULT_BATCH_WAIT_MS,
    };
    Some(BatchPolicy { max_batch_size, max_batch_wait_ms })
}

/// Number of workers: the configured count, else `DEFAULT_NUM_WORKERS`.
pub fn resolve_num_workers(num_workers: Option<u32>) -> (r: usize)
    ensures
        r == match num_workers {
            Some(n) => n as usize,
            None => DEFAULT_NUM_WORKERS,
        },
{
    match num_workers {
        Some(n) => n as usize,
        None => DEFAULT_NUM_WORKERS,
    }
}

/// Whether every handler runs in a batch mode, in which case the pool runs
/// batch workers.
pub fn all_batch_modes(modes: &[HandlerMode]) -> (r: bool)
    ensures
        r == forall|i: int| 0 <= i < modes@.len() ==> (#[trigger] modes@[i]).is_batch_spec(),
{
    let mut i: usize = 0;
    while i < modes.len()
        invariant
            i <= modes@.len(),
            forall|j: int| 0 <= j < i ==> (#[trigger] modes@[j]).is_batch_spec(),
        decreases modes.len() - i,
    {
        if !modes[i].is_batch() {
            return false;
        }
        i += 1;
    }
    true
}

/// Where a consumer group without a committed offset starts reading.
#[derive(Debug, Clone, Copy, PartialEq, Eq, Structural)]
pub enum AutoOffsetReset {
    Earliest,
    Latest,
}

/// The reset policy of a setting: "earliest" reads from the start of the
/// partition; any other setting from its end.
pub fn auto_offset_reset_of(setting: &str) -> (r: AutoOffsetReset)
    ensures
        r == if setting@ == "earliest"@ {
            AutoOffsetReset::Earliest
        } else {
            AutoOffsetReset::Latest
        },
{
    if crate::text::str_eq(setting, "earliest") {
        AutoOffsetReset::Earliest
    } else {
        AutoOffsetReset::Latest
    }
}

/// The number of workers the pool starts: one per handler queue receiver,
/// at most `n_workers`.
pub fn workers_to_spawn(n_workers: usize, receivers: usize) -> (r: usize)
    ensures
        r == if n_workers < receivers { n_workers } else { receivers },
{
    if n_workers < receivers {
        n_workers
    } else {
        receivers
    }
}

impl HandlerMode {
    pub open spec fn is_batch_spec(self) -> bool {
        self == HandlerMode::BatchSync || self == HandlerMode::BatchAsync
    }
}

} // verus!
