//! Routing: a borrowed view of a message, the decision enum, the router
//! trait, the concrete routers and the chain that orders them.

pub mod callback;
pub mod chain;
pub mod config;
pub mod context;
pub mod decision;
pub mod header;
pub mod key;
pub mod patterns;
pub mod router;
pub mod topic_pattern;

pub use context::HandlerId;
