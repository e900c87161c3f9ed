//! The spawn countdown: a single timer polled every tick, re-armed with a
//! freshly drawn duration after each firing.

use vstd::prelude::*;

verus! {

/// Countdown until the next star spawn, in milliseconds. It starts at zero,
/// so the very first tick fires immediately.
pub struct SpawnTimer {
    /// Milliseconds left until the timer fires.
    pub remaining_ms: u64,
}

impl SpawnTimer {
    /// A fresh timer that fires on the first tick.
    pub fn new() -> (r: SpawnTimer)
        ensures
            r.remaining_ms == 0,
    {
        SpawnTimer { remaining_ms: 0 }
    }

    /// Advance the countdown by the elapsed frame time; report whether the
    /// timer fired. A timer with nothing remaining fires on any tick.
    pub fn advance(&mut self, delta_ms: u64) -> (fired: bool)
        ensures
            fired == (delta_ms >= old(self).remaining_ms),
            final(self).remaining_ms == if delta_ms >= old(self).remaining_ms {
                0u64
            } else {
                (old(self).remaining_ms - delta_ms) as u64
            },
    {
        if delta_ms >= self.remaining_ms {
            self.remaining_ms = 0;
            true
        } else {
            self.remaining_ms = self.remaining_ms - delta_ms;
            false
        }
    }

    /// Re-arm the countdown with a freshly drawn duration.
    pub fn arm(&mut self, duration_ms: u64)
        ensures
            final(self).remaining_ms == duration_ms,
    {
        self.remaining_ms = duration_ms;
    }
}

} // verus!
