//! Timing of one unit of work: the clock starts at its first step and the
//! elapsed whole seconds are recorded once, when it completes.
use vstd::prelude::*;

verus! {

pub const NANOS_PER_SEC: u64 = 1_000_000_000;

pub struct TimerView {
    pub start: Option<u64>,
    pub recorded: bool,
}

/// Measures one unit of work, on a monotonic clock read in nanoseconds.
pub struct Timer {
    start: Option<u64>,
    recorded: bool,
}

impl View for Timer {
    type V = TimerView;

    closed spec fn view(&self) -> TimerView {
        TimerView { start: self.start, recorded: self.recorded }
    }
}

/// Whole seconds from `start` to `now`, none when the clock reads earlier.
pub open spec fn elapsed_secs(start: u64, now: u64) -> u64 {
    if now >= start { ((now - start) / (NANOS_PER_SEC as int)) as u64 } else { 0 }
}

impl Timer {
    /// A timer that has not started: construction charges no time.
    pub fn new() -> (t: Timer)
        ensures
            t@.start.is_none(),
            !t@.recorded,
    {
        Timer { start: None, recorded: false }
    }

    /// The work took one step at `now`; `completed` says whether it finished.
    /// Returns the seconds to record: on completion, and only the first time.
    pub fn on_step(&mut self, now: u64, completed: bool) -> (r: Option<u64>)
        ensures
            final(self)@.start == (match old(self)@.start {
                Some(s) => Some(s),
                None => Some(now),
            }),
            final(self)@.recorded == (old(self)@.recorded || completed),
            r == if completed && !old(self)@.recorded {
                Some(elapsed_secs(final(self)@.start.unwrap(), now))
            } else {
                None::<u64>
            },
    {
        let start = match self.start {
            Some(s) => s,
            None => now,
        };
        self.start = Some(start);
        if completed && !self.recorded {
            self.recorded = true;
            let elapsed = if now >= start { (now - start) / NANOS_PER_SEC } else { 0 };
            Some(elapsed)
        } else {
            None
        }
    }
}

} // verus!
