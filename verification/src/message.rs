//! Messages as they leave the broker client: owned copies of a Kafka record.

use vstd::prelude::*;

verus! {

/// Timestamp attached to a Kafka record.
#[derive(Debug, Clone, Copy, PartialEq, Eq, Structural)]
pub enum MessageTimestamp {
    NotAvailable,
    CreateTime(i64),
    LogAppendTime(i64),
}

impl MessageTimestamp {
    /// Milliseconds carried by the timestamp, or 0 when none is available.
    pub fn millis(&self) -> (r: i64)
        ensures
            r == match *self {
                MessageTimestamp::NotAvailable => 0,
                MessageTimestamp::CreateTime(t) => t,
                MessageTimestamp::LogAppendTime(t) => t,
            },
    {
        match *self {
            MessageTimestamp::NotAvailable => 0,
            MessageTimestamp::CreateTime(t) => t,
            MessageTimestamp::LogAppendTime(t) => t,
        }
    }
}

/// An owned Kafka record.
#[derive(Debug, Clone)]
pub struct OwnedMessage {
    pub topic: String,
    pub partition: i32,
    pub offset: i64,
    pub key: Option<Vec<u8>>,
    pub payload: Option<Vec<u8>>,
    pub timestamp: MessageTimestamp,
    pub headers: Vec<(String, Option<Vec<u8>>)>,
}

} // verus!
