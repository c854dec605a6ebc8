//! Decision logic of an SQS consumer runtime: batched acknowledgment,
//! bounded-concurrency dispatch, polling, timing and shutdown coordination.
use vstd::prelude::*;

pub mod ack;
pub mod config;
pub mod deleter;
pub mod dispatch;
pub mod message;
pub mod poller;
pub mod runtime;
pub mod signal;
pub mod timer;

pub use config::SqsClientConfig;
pub use runtime::Runtime as SqsConsumer;

verus! {

} // verus!
