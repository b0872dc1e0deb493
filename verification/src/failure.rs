//! Classification of why processing a message failed.

use vstd::prelude::*;

verus! {

/// High-level failure category, deciding between retry and dead-lettering.
#[derive(Debug, Clone, Copy, PartialEq, Eq, Structural)]
pub enum FailureCategory {
    /// Transient failure that may succeed on retry (e.g. a network timeout).
    Retryable,
    /// Permanent failure indicating a bad message (e.g. a poison message).
    Terminal,
    /// Failure that should not be retried but is not necessarily a bad message.
    NonRetryable,
}

impl FailureCategory {
    /// The category's name as shown to users.
    pub fn repr(&self) -> (r: &'static str)
        ensures
            r@ == match *self {
                FailureCategory::Retryable => "FailureCategory.Retryable"@,
                FailureCategory::Terminal => "FailureCategory.Terminal"@,
                FailureCategory::NonRetryable => "FailureCategory.NonRetryable"@,
            },
    {
        proof {
            reveal_strlit("FailureCategory.Retryable");
            reveal_strlit("FailureCategory.Terminal");
            reveal_strlit("FailureCategory.NonRetryable");
        }
        match self {
            FailureCategory::Retryable => "FailureCategory.Retryable",
            FailureCategory::Terminal => "FailureCategory.Terminal",
            FailureCategory::NonRetryable => "FailureCategory.NonRetryable",
        }
    }
}

/// The description of the terminal failure of a handler that panicked.
pub open spec fn handler_panic_description() -> Seq<char> {
    "HandlerPanic"@
}

/// A specific failure: its category and a human-readable description.
#[derive(Debug)]
pub struct FailureReason {
    pub category: FailureCategory,
    pub description: String,
}

impl Clone for FailureReason {
    fn clone(&self) -> (r: Self)
        ensures
            r == *self,
    {
        FailureReason { category: self.category, description: self.description.clone() }
    }
}

impl FailureReason {
    pub fn new(category: FailureCategory, description: String) -> (r: Self)
        ensures
            r.category == category,
            r.description == description,
    {
        FailureReason { category, description }
    }

    /// The terminal failure recorded when a handler panics, times out or
    /// returns an unusable result.
    pub fn handler_panic() -> (r: Self)
        ensures
            r.category == FailureCategory::Terminal,
            r.description@ == handler_panic_description(),
    {
        proof {
            reveal_strlit("HandlerPanic");
        }
        FailureReason { category: FailureCategory::Terminal, description: String::from_str("HandlerPanic") }
    }

    /// The failure's category.
    pub fn category(&self) -> (r: FailureCategory)
        ensures
            r == self.category,
    {
        self.category
    }
}

} // verus!
