//! Countdown timers driven by elapsed time, measured in nanoseconds.

use vstd::prelude::*;

verus! {

/// How a timer behaves once it has reached its duration.
#[derive(Clone, Copy, Debug, PartialEq, Eq, Structural)]
pub enum TimerMode {
    /// Runs to its duration and then stays finished until it is reset.
    Once,
    /// Wraps around at its duration and reports completion on the tick that wrapped.
    Repeating,
}

/// A timer that accumulates elapsed nanoseconds towards a fixed duration.
#[derive(Clone, Copy, Debug, PartialEq, Eq, Structural)]
pub struct Timer {
    pub duration: u64,
    pub elapsed: u64,
    pub mode: TimerMode,
    pub finished: bool,
}

impl Timer {
    /// A finished one-shot timer rests exactly at its duration; any other timer
    /// has not yet reached it.
    pub open spec fn wf(&self) -> bool {
        if self.mode == TimerMode::Once && self.finished {
            self.elapsed == self.duration
        } else {
            self.elapsed < self.duration || self.elapsed == 0
        }
    }

    /// Whether the timer is consistent.
    pub fn is_wf(&self) -> (ok: bool)
        ensures
            ok == self.wf(),
    {
        if self.mode == TimerMode::Once && self.finished {
            self.elapsed == self.duration
        } else {
            self.elapsed < self.duration || self.elapsed == 0
        }
    }

    /// The timer as it stands after `delta` more nanoseconds.
    pub open spec fn ticked(self, delta: u64) -> Timer {
        let total = self.elapsed + delta;
        if self.mode == TimerMode::Once && self.finished {
            self
        } else if total < self.duration {
            Timer { elapsed: total as u64, finished: false, ..self }
        } else if self.mode == TimerMode::Once {
            Timer { elapsed: self.duration, finished: true, ..self }
        } else if self.duration == 0 {
            Timer { elapsed: 0, finished: true, ..self }
        } else {
            Timer { elapsed: (total % (self.duration as int)) as u64, finished: true, ..self }
        }
    }

    /// The timer wound back to zero.
    pub open spec fn rewound(self) -> Timer {
        Timer { elapsed: 0, finished: false, ..self }
    }

    /// A consistent timer stays consistent when it runs and when it is wound back.
    pub proof fn lemma_stays_wf(self, delta: u64)
        requires
            self.wf(),
        ensures
            self.ticked(delta).wf(),
            self.rewound().wf(),
            self.ticked(delta).mode == self.mode,
            self.ticked(delta).duration == self.duration,
    {
    }

    /// A timer of the given duration that has not run yet.
    pub open spec fn new_spec(duration: u64, mode: TimerMode) -> Timer {
        Timer { duration, elapsed: 0, mode, finished: false }
    }

    /// A timer of the given duration, in nanoseconds, that has not run yet.
    pub fn new(duration: u64, mode: TimerMode) -> (t: Timer)
        ensures
            t == Timer::new_spec(duration, mode),
            t.wf(),
    {
        Timer { duration, elapsed: 0, mode, finished: false }
    }

    /// Advances the timer by `delta` nanoseconds.
    pub fn tick(&mut self, delta: u64)
        ensures
            *final(self) == old(self).ticked(delta),
            old(self).wf() ==> final(self).wf(),
    {
        if self.mode == TimerMode::Once && self.finished {
            return;
        }
        let total: u128 = self.elapsed as u128 + delta as u128;
        if total < self.duration as u128 {
            self.elapsed = total as u64;
            self.finished = false;
        } else {
            self.finished = true;
            if self.mode == TimerMode::Once {
                self.elapsed = self.duration;
            } else if self.duration == 0 {
                self.elapsed = 0;
            } else {
                self.elapsed = (total % self.duration as u128) as u64;
            }
        }
    }

    /// Whether the last tick reached the duration.
    pub fn finished(&self) -> (b: bool)
        ensures
            b == self.finished,
    {
        self.finished
    }

    /// Winds the timer back to zero.
    pub fn reset(&mut self)
        ensures
            *final(self) == old(self).rewound(),
            final(self).wf(),
    {
        self.elapsed = 0;
        self.finished = false;
    }
}

} // verus!
