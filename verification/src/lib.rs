//! Verified core of a Kafka consumer runtime: message routing, retry and
//! shutdown state machines, batching, fan-out bookkeeping and metric labels.

pub mod message;
pub mod routing;
pub mod text;
pub mod text_map;
pub mod seqs;
pub mod execution;
pub mod failure;
pub mod time;
pub mod worker_pool;
pub mod retry;
pub mod shutdown;
pub mod observability;
pub mod handler;
pub mod producer;
