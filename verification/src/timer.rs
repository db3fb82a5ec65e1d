//! Countdown timers in whole milliseconds.
//!
//! All waiting in the simulation is a timer that is advanced by the elapsed
//! time of each tick and inspected afterwards; nothing ever blocks.

use vstd::prelude::*;

verus! {

/// A timer that runs for `duration` milliseconds.
///
/// A one-shot timer stops at its duration and reports `just_finished` on the
/// single tick that completes it. A repeating timer reports `just_finished` on
/// every tick that completes a period and keeps the remainder.
#[derive(Clone, Copy, Debug, PartialEq, Eq, Structural)]
pub struct Timer {
    pub elapsed: u64,
    pub duration: u64,
    pub finished: bool,
    pub just_finished: bool,
    pub repeating: bool,
}

impl Timer {
    /// A stopped timer at the start of its run.
    pub open spec fn fresh(duration: u64, repeating: bool) -> Timer {
        Timer { elapsed: 0, duration, finished: false, just_finished: false, repeating }
    }

    /// The timer after `delta` more milliseconds.
    pub open spec fn ticked(self, delta: u64) -> Timer {
        if self.finished && !self.repeating {
            Timer { just_finished: false, ..self }
        } else if self.elapsed + delta >= self.duration {
            Timer {
                elapsed: if !self.repeating {
                    self.duration
                } else if self.duration == 0 {
                    0
                } else {
                    ((self.elapsed + delta) % (self.duration as int)) as u64
                },
                finished: true,
                just_finished: true,
                ..self
            }
        } else {
            Timer {
                elapsed: (self.elapsed + delta) as u64,
                finished: false,
                just_finished: false,
                ..self
            }
        }
    }

    /// The timer wound back to the start of its run, duration kept.
    pub open spec fn rewound(self) -> Timer {
        Timer { elapsed: 0, finished: false, just_finished: false, ..self }
    }

    /// Milliseconds still to run; zero once the duration is reached.
    pub open spec fn remaining_spec(self) -> u64 {
        if self.elapsed >= self.duration {
            0
        } else {
            (self.duration - self.elapsed) as u64
        }
    }

    pub fn new(duration: u64, repeating: bool) -> (timer: Timer)
        ensures
            timer == Timer::fresh(duration, repeating),
    {
        Timer { elapsed: 0, duration, finished: false, just_finished: false, repeating }
    }

    /// Advances the timer by `delta` milliseconds.
    pub fn tick(&mut self, delta: u64)
        ensures
            *final(self) == old(self).ticked(delta),
    {
        if self.finished && !self.repeating {
            self.just_finished = false;
            return ;
        }
        let total: u128 = self.elapsed as u128 + delta as u128;
        if total >= self.duration as u128 {
            if !self.repeating {
                self.elapsed = self.duration;
            } else if self.duration == 0 {
                self.elapsed = 0;
            } else {
                self.elapsed = (total % (self.duration as u128)) as u64;
            }
            self.finished = true;
            self.just_finished = true;
        } else {
            self.elapsed = total as u64;
            self.finished = false;
            self.just_finished = false;
        }
    }

    /// Winds the timer back to the start of its run.
    pub fn reset(&mut self)
        ensures
            *final(self) == old(self).rewound(),
    {
        self.elapsed = 0;
        self.finished = false;
        self.just_finished = false;
    }

    /// Milliseconds still to run.
    pub fn remaining(&self) -> (left: u64)
        ensures
            left == self.remaining_spec(),
    {
        if self.elapsed >= self.duration {
            0
        } else {
            self.duration - self.elapsed
        }
    }
}

} // verus!
