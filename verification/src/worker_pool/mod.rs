//! Worker pool logic: worker and batch state machines, the action taken
//! after a failure, batching buffers and fan-out bookkeeping.

pub mod accumulator;
pub mod action;
pub mod batch;
pub mod state;
pub mod fan_out;
pub mod streaming;
pub mod settle;
pub mod worker;
pub mod dispatch;
pub mod concurrency;
pub mod batch_loop;
