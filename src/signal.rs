//! The shutdown coordinator: the first interrupt or terminate signal fires the
//! cancellation broadcast, once.
use vstd::prelude::*;

verus! {

/// The process signals that end the runtime.
#[derive(PartialEq, Eq, Structural, Clone, Copy, Debug)]
pub enum SignalKind {
    Interrupt,
    Terminate,
}

/// `Listening` until a signal arrives, then `Fired` for good.
pub struct SignalManager {
    fired: bool,
}

impl View for SignalManager {
    type V = bool;

    /// Whether the cancellation has fired.
    closed spec fn view(&self) -> bool {
        self.fired
    }
}

impl SignalManager {
    pub fn new() -> (s: SignalManager)
        ensures
            !s@,
    {
        SignalManager { fired: false }
    }

    pub fn has_fired(&self) -> (b: bool)
        ensures
            b == self@,
    {
        self.fired
    }

    /// A signal arrived: returns whether to broadcast the cancellation, which
    /// holds for the first signal only.
    pub fn on_signal(&mut self, kind: SignalKind) -> (broadcast: bool)
        ensures
            final(self)@,
            broadcast == !old(self)@,
    {
        let first = !self.fired;
        self.fired = true;
        first
    }
}

} // verus!
