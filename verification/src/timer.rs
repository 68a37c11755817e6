//! Countdown timers: a repeating timer drives each tower's firing cooldown
//! and a one-shot timer bounds each bullet's lifetime.

use vstd::prelude::*;

verus! {

/// Whether a timer stops once it has elapsed or restarts from zero.
#[derive(Clone, Copy, Debug, PartialEq, Eq, Structural)]
pub enum TimerMode {
    Once,
    Repeating,
}

/// A millisecond timer. A repeating timer keeps `elapsed_ms` strictly below
/// `duration_ms`; a one-shot timer saturates at `duration_ms`.
#[derive(Clone, Copy, Debug, PartialEq, Eq, Structural)]
pub struct Timer {
    pub duration_ms: u32,
    pub elapsed_ms: u32,
    pub mode: TimerMode,
}

impl Timer {
    pub open spec fn wf(self) -> bool {
        &&& self.duration_ms >= 1
        &&& match self.mode {
            TimerMode::Repeating => self.elapsed_ms < self.duration_ms,
            TimerMode::Once => self.elapsed_ms <= self.duration_ms,
        }
    }

    /// The timer after `dt` milliseconds have passed.
    pub open spec fn ticked(self, dt: u32) -> Timer {
        match self.mode {
            TimerMode::Repeating => Timer {
                elapsed_ms: ((self.elapsed_ms + dt) % (self.duration_ms as int)) as u32,
                ..self
            },
            TimerMode::Once => Timer {
                elapsed_ms: if self.elapsed_ms + dt >= self.duration_ms {
                    self.duration_ms
                } else {
                    (self.elapsed_ms + dt) as u32
                },
                ..self
            },
        }
    }

    /// Whether a tick of `dt` milliseconds completes the timer. A one-shot
    /// timer completes only on the tick that first reaches its duration.
    pub open spec fn fires(self, dt: u32) -> bool {
        match self.mode {
            TimerMode::Repeating => self.elapsed_ms + dt >= self.duration_ms,
            TimerMode::Once => self.elapsed_ms < self.duration_ms && self.elapsed_ms + dt
                >= self.duration_ms,
        }
    }

    pub fn new(duration_ms: u32, mode: TimerMode) -> (t: Timer)
        requires
            duration_ms >= 1,
        ensures
            t == (Timer { duration_ms, elapsed_ms: 0, mode }),
            t.wf(),
    {
        Timer { duration_ms, elapsed_ms: 0, mode }
    }

    /// Advances the timer by `dt` milliseconds and reports whether it
    /// completed during this tick.
    pub fn tick(&mut self, dt: u32) -> (fired: bool)
        requires
            old(self).wf(),
        ensures
            *final(self) == old(self).ticked(dt),
            fired == old(self).fires(dt),
            final(self).wf(),
    {
        let sum: u64 = self.elapsed_ms as u64 + dt as u64;
        match self.mode {
            TimerMode::Repeating => {
                if sum >= self.duration_ms as u64 {
                    self.elapsed_ms = (sum % (self.duration_ms as u64)) as u32;
                    true
                } else {
                    proof {
                        vstd::arithmetic::div_mod::lemma_small_mod(
                            sum as nat,
                            self.duration_ms as nat,
                        );
                    }
                    self.elapsed_ms = sum as u32;
                    false
                }
            },
            TimerMode::Once => {
                if sum >= self.duration_ms as u64 {
                    let crossed: bool = self.elapsed_ms < self.duration_ms;
                    self.elapsed_ms = self.duration_ms;
                    crossed
                } else {
                    self.elapsed_ms = sum as u32;
                    false
                }
            },
        }
    }
}

} // verus!
