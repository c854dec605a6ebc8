//! The runtime: its handler, its queue settings and its poller count.
use vstd::prelude::*;

use crate::config::{poller_count_from, poller_count_of, setting_view, SqsClientConfig};
use crate::dispatch::{concurrency_for, Dispatcher, MAX_POLLER_COUNT};

verus! {

/// A consumer runtime around the handler `future_fn`.
pub struct Runtime<F> {
    pub poller_count: usize,
    pub future_fn: F,
    pub sqs_client_config: SqsClientConfig,
}

impl<F> Runtime<F> {
    /// A runtime for `future`, with the poller count read from its configured
    /// setting (`None` where nothing is configured).
    pub fn new(future: F, sqs_client_config: SqsClientConfig, poller_count_setting: Option<&str>) -> (r:
        Runtime<F>)
        ensures
            r.future_fn == future,
            r.sqs_client_config == sqs_client_config,
            poller_count_of(setting_view(poller_count_setting), r.poller_count),
    {
        Runtime {
            poller_count: poller_count_from(poller_count_setting),
            future_fn: future,
            sqs_client_config,
        }
    }

    /// The dispatcher for this runtime's pollers, or `None` where the permit pool
    /// size would not fit in `usize`.
    pub fn dispatcher(&self) -> (r: Option<Dispatcher>)
        ensures
            r.is_none() <==> self.poller_count > MAX_POLLER_COUNT,
            r.is_some() ==> {
                let d = r.unwrap();
                &&& d.wf()
                &&& d@.limit == concurrency_for(self.poller_count as nat)
                &&& d@.in_flight == 0
                &&& !d@.cancelled
                &&& d@.pollers_running == self.poller_count
                &&& !d@.acknowledger_done
            },
    {
        Dispatcher::checked_new(self.poller_count)
    }
}

} // verus!
