//! The runtime core's decisions: permit-gated dispatch of messages to tasks, and
//! when the runtime may return after cancellation.
use vstd::prelude::*;

use crate::ack::{AckEntry, FlushBatch};
use crate::deleter::{is_run, sent_from, AckEvent, AckPhase, BatchDeleter, DeleterView};

verus! {

/// Concurrency permits per poller; one more permit is always added.
pub const PERMITS_PER_POLLER: usize = 4;

/// The largest poller count whose permit pool size fits in `usize`.
pub const MAX_POLLER_COUNT: usize = (usize::MAX - 1) / 4;

/// Size of the permit pool for `poller_count` pollers.
pub open spec fn concurrency_for(poller_count: nat) -> nat {
    poller_count * 4 + 1
}

/// The permit pool size: four permits per poller, plus one.
pub fn max_concurrency(poller_count: usize) -> (r: usize)
    requires
        poller_count <= MAX_POLLER_COUNT,
    ensures
        r == concurrency_for(poller_count as nat),
{
    poller_count * PERMITS_PER_POLLER + 1
}

/// However the dispatcher got here, no more tasks are in flight than
/// `poller_count * 4 + 1`.
pub proof fn lemma_in_flight_within_permits(d: Dispatcher, poller_count: nat)
    requires
        d.wf(),
        d@.limit == concurrency_for(poller_count),
    ensures
        d@.in_flight <= poller_count * 4 + 1,
{
}

/// When the runtime may return after shutdown, no handler is still running, and
/// every acknowledgment that reached the acknowledger (whose run ended finished)
/// went into a delete call at its arrival or later.
pub proof fn lemma_shutdown_complete(
    d: Dispatcher,
    a: BatchDeleter,
    states: Seq<DeleterView>,
    events: Seq<AckEvent>,
    sent: Seq<Seq<FlushBatch>>,
    t: int,
    x: AckEntry,
)
    requires
        d.wf(),
        d@.cancelled && d@.in_flight == 0 && d@.pollers_running == 0 && d@.acknowledger_done,
        a.wf(),
        a@.phase == AckPhase::Finished,
        is_run(states, events, sent),
        states.last() == a@,
        0 <= t < events.len(),
        events[t] == AckEvent::Received(x),
        states[t].phase != AckPhase::Finished,
    ensures
        d@.in_flight == 0,
        sent_from(sent, t, x.id@),
{
    crate::deleter::lemma_received_entry_is_sent(states, events, sent, t, x);
}

/// What to do with a message taken from the message channel.
#[derive(PartialEq, Eq, Structural, Clone, Copy, Debug)]
pub enum Dispatch {
    /// A permit was taken: run the message's task.
    Spawn,
    /// No permit is free: wait for a task to finish, then ask again.
    AwaitPermit,
    /// Cancellation has fired: the message is not processed.
    Discard,
}

pub struct DispatcherView {
    pub limit: nat,
    pub in_flight: nat,
    pub cancelled: bool,
    pub pollers_running: nat,
    pub acknowledger_done: bool,
}

/// The runtime core's state: permits in use, cancellation, and the tasks that
/// must finish before the runtime returns.
pub struct Dispatcher {
    limit: usize,
    in_flight: usize,
    cancelled: bool,
    pollers_running: usize,
    acknowledger_done: bool,
}

impl View for Dispatcher {
    type V = DispatcherView;

    closed spec fn view(&self) -> DispatcherView {
        DispatcherView {
            limit: self.limit as nat,
            in_flight: self.in_flight as nat,
            cancelled: self.cancelled,
            pollers_running: self.pollers_running as nat,
            acknowledger_done: self.acknowledger_done,
        }
    }
}

impl Dispatcher {
    /// Never more tasks in flight than permits.
    pub open spec fn wf(&self) -> bool {
        self@.in_flight <= self@.limit
    }

    /// A dispatcher for `poller_count` pollers, all running, with no task in flight.
    pub fn new(poller_count: usize) -> (d: Dispatcher)
        requires
            poller_count <= MAX_POLLER_COUNT,
        ensures
            d.wf(),
            d@.limit == concurrency_for(poller_count as nat),
            d@.in_flight == 0,
            !d@.cancelled,
            d@.pollers_running == poller_count,
            !d@.acknowledger_done,
    {
        Dispatcher {
            limit: max_concurrency(poller_count),
            in_flight: 0,
            cancelled: false,
            pollers_running: poller_count,
            acknowledger_done: false,
        }
    }

    /// As `new`, or `None` where the permit pool size would not fit in `usize`.
    pub fn checked_new(poller_count: usize) -> (r: Option<Dispatcher>)
        ensures
            r.is_none() <==> poller_count > MAX_POLLER_COUNT,
            r.is_some() ==> {
                let d = r.unwrap();
                &&& d.wf()
                &&& d@.limit == concurrency_for(poller_count as nat)
                &&& d@.in_flight == 0
                &&& !d@.cancelled
                &&& d@.pollers_running == poller_count
                &&& !d@.acknowledger_done
            },
    {
        if poller_count > MAX_POLLER_COUNT {
            None
        } else {
            Some(Dispatcher::new(poller_count))
        }
    }

    pub fn in_flight(&self) -> (n: usize)
        ensures
            n == self@.in_flight,
    {
        self.in_flight
    }

    pub fn limit(&self) -> (n: usize)
        ensures
            n == self@.limit,
    {
        self.limit
    }

    pub fn pollers_running(&self) -> (n: usize)
        ensures
            n == self@.pollers_running,
    {
        self.pollers_running
    }

    pub fn is_cancelled(&self) -> (b: bool)
        ensures
            b == self@.cancelled,
    {
        self.cancelled
    }

    /// A message arrived: discard it after cancellation, else take a permit if one
    /// is free.
    pub fn on_message(&mut self) -> (r: Dispatch)
        requires
            old(self).wf(),
        ensures
            final(self).wf(),
            old(self)@.cancelled ==> r == Dispatch::Discard && final(self)@ == old(self)@,
            !old(self)@.cancelled && old(self)@.in_flight < old(self)@.limit ==> r == Dispatch::Spawn
                && final(self)@ == (DispatcherView { in_flight: old(self)@.in_flight + 1, ..old(self)@ }),
            !old(self)@.cancelled && old(self)@.in_flight >= old(self)@.limit ==> r == Dispatch::AwaitPermit
                && final(self)@ == old(self)@,
    {
        if self.cancelled {
            Dispatch::Discard
        } else if self.in_flight < self.limit {
            self.in_flight = self.in_flight + 1;
            Dispatch::Spawn
        } else {
            Dispatch::AwaitPermit
        }
    }

    /// A message's task finished, whatever its result: its permit comes back.
    pub fn on_task_finished(&mut self)
        requires
            old(self).wf(),
            old(self)@.in_flight > 0,
        ensures
            final(self).wf(),
            final(self)@ == (DispatcherView { in_flight: (old(self)@.in_flight - 1) as nat, ..old(self)@ }),
    {
        self.in_flight = self.in_flight - 1;
    }

    /// The cancellation signal fired; firing again changes nothing.
    pub fn on_cancel(&mut self)
        requires
            old(self).wf(),
        ensures
            final(self).wf(),
            final(self)@ == (DispatcherView { cancelled: true, ..old(self)@ }),
    {
        self.cancelled = true;
    }

    /// A poller's loop ended.
    pub fn on_poller_stopped(&mut self)
        requires
            old(self).wf(),
            old(self)@.pollers_running > 0,
        ensures
            final(self).wf(),
            final(self)@ == (DispatcherView { pollers_running: (old(self)@.pollers_running - 1) as nat, ..old(self)@ }),
    {
        self.pollers_running = self.pollers_running - 1;
    }

    /// The acknowledger drained its channel and flushed everything.
    pub fn on_acknowledger_done(&mut self, deleter: &BatchDeleter)
        requires
            old(self).wf(),
            deleter.wf(),
            deleter@.phase == AckPhase::Finished,
        ensures
            final(self).wf(),
            final(self)@ == (DispatcherView { acknowledger_done: true, ..old(self)@ }),
    {
        self.acknowledger_done = true;
    }

    /// The runtime may return: cancellation fired and every task it spawned has
    /// finished.
    pub fn may_return(&self) -> (b: bool)
        ensures
            b == (self@.cancelled && self@.in_flight == 0 && self@.pollers_running == 0
                && self@.acknowledger_done),
    {
        self.cancelled && self.in_flight == 0 && self.pollers_running == 0 && self.acknowledger_done
    }
}

} // verus!
