//! The poller's decisions: forward what a receive returned, back off after a
//! failed receive, stop on cancellation.
use vstd::prelude::*;

use crate::message::Message;

verus! {

/// Milliseconds a poller waits after a failed receive before it tries again.
pub const RECEIVE_BACKOFF_MS: u64 = 1000;

/// How one round of the poller's race ended.
pub enum PollOutcome {
    /// The cancellation signal won the race.
    Cancelled,
    /// The receive returned these messages, in the queue's order.
    Received(Vec<Message>),
    /// The receive failed.
    Failed,
}

/// What the poller's loop does next.
pub enum PollAction {
    /// Leave the loop.
    Stop,
    /// Send these messages to the message channel, in this order, then receive again.
    Forward(Vec<Message>),
    /// Sleep this many milliseconds, then receive again.
    Backoff(u64),
}

/// A poller: running until cancellation is observed.
pub struct Poller {
    stopped: bool,
}

impl View for Poller {
    type V = bool;

    /// Whether the poller has stopped.
    closed spec fn view(&self) -> bool {
        self.stopped
    }
}

impl Poller {
    pub fn new() -> (p: Poller)
        ensures
            !p@,
    {
        Poller { stopped: false }
    }

    pub fn is_stopped(&self) -> (b: bool)
        ensures
            b == self@,
    {
        self.stopped
    }

    /// Decides the next action from the outcome of one round.
    pub fn step(&mut self, outcome: PollOutcome) -> (a: PollAction)
        ensures
            old(self)@ ==> a is Stop && final(self)@,
            !old(self)@ ==> match outcome {
                PollOutcome::Cancelled => a is Stop && final(self)@,
                PollOutcome::Received(ms) => a == PollAction::Forward(ms) && !final(self)@,
                PollOutcome::Failed => a == PollAction::Backoff(RECEIVE_BACKOFF_MS) && !final(self)@,
            },
    {
        if self.stopped {
            return PollAction::Stop;
        }
        match outcome {
            PollOutcome::Cancelled => {
                self.stopped = true;
                PollAction::Stop
            },
            PollOutcome::Received(ms) => PollAction::Forward(ms),
            PollOutcome::Failed => PollAction::Backoff(RECEIVE_BACKOFF_MS),
        }
    }
}

} // verus!
