//! Fixed-interval repeating timers, advanced once per frame by the measured
//! elapsed time. The movement timer gates committed snake moves; the food
//! timer gates food spawns.

use vstd::prelude::*;

verus! {

/// Milliseconds between two committed snake moves.
pub const MOVE_PERIOD_MS: u64 = 250;

/// Milliseconds between two food spawns.
pub const FOOD_PERIOD_MS: u64 = 1000;

/// A repeating timer. Each frame it accumulates the frame's elapsed time;
/// when the accumulator reaches the period, the timer fires and keeps the
/// remainder.
#[derive(Clone, Copy, PartialEq, Eq, Structural, Debug)]
pub struct TickTimer {
    /// Time accumulated since the timer last fired, in milliseconds.
    pub elapsed_ms: u64,
    /// The fixed period, in milliseconds. Always positive.
    pub period_ms: u64,
    /// Whether the timer fired on its most recent advance.
    pub fired: bool,
}

impl TickTimer {
    /// A positive period, with the accumulator below it; holds between
    /// frames for every timer the game owns.
    pub open spec fn wf(self) -> bool {
        0 < self.period_ms && self.elapsed_ms < self.period_ms
    }

    /// The timer state after one advance by `delta` milliseconds.
    pub open spec fn spec_tick(self, delta: u64) -> TickTimer {
        let total = self.elapsed_ms + delta;
        if total >= self.period_ms {
            TickTimer {
                elapsed_ms: (total % (self.period_ms as int)) as u64,
                period_ms: self.period_ms,
                fired: true,
            }
        } else {
            TickTimer { elapsed_ms: total as u64, period_ms: self.period_ms, fired: false }
        }
    }

    /// A fresh timer that has never fired.
    pub fn new(period_ms: u64) -> (t: TickTimer)
        requires
            period_ms > 0,
        ensures
            t == (TickTimer { elapsed_ms: 0, period_ms, fired: false }),
            t.wf(),
    {
        TickTimer { elapsed_ms: 0, period_ms, fired: false }
    }

    /// Advance the timer by one frame's elapsed time.
    pub fn tick(&mut self, delta_ms: u64)
        requires
            old(self).period_ms > 0,
            old(self).elapsed_ms + delta_ms <= u64::MAX,
        ensures
            *final(self) == old(self).spec_tick(delta_ms),
            final(self).wf(),
    {
        let total = self.elapsed_ms + delta_ms;
        if total >= self.period_ms {
            self.elapsed_ms = total % self.period_ms;
            self.fired = true;
        } else {
            self.elapsed_ms = total;
            self.fired = false;
        }
    }
}

} // verus!
