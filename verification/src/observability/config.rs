//! Logging configuration.

use vstd::prelude::*;

verus! {

/// Log format for structured logging.
#[derive(Debug, Clone, Copy, PartialEq, Eq, Structural)]
pub enum LogFormat {
    Json,
    Pretty,
    Simple,
}

impl LogFormat {
    /// The format a configured name selects: "json", "simple", and any
    /// other name the pretty format.
    pub fn from_name(name: &str) -> (r: Self)
        ensures
            r == if name@ == "json"@ {
                LogFormat::Json
            } else if name@ == "simple"@ {
                LogFormat::Simple
            } else {
                LogFormat::Pretty
            },
    {
        if crate::text::str_eq(name, "json") {
            LogFormat::Json
        } else if crate::text::str_eq(name, "simple") {
            LogFormat::Simple
        } else {
            LogFormat::Pretty
        }
    }
}

impl Default for LogFormat {
    /// Plain, simple log lines.
    fn default() -> (r: Self)
        ensures
            r == LogFormat::Simple,
    {
        LogFormat::Simple
    }
}

} // verus!
