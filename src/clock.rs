//! Stopwatches and timers over whole microseconds.
use vstd::prelude::*;

verus! {

/// Accumulated simulation time in microseconds.
#[derive(Clone, Copy, Debug, PartialEq, Eq, Structural)]
pub struct Stopwatch {
    pub elapsed: u64,
}

pub open spec fn saturating_sum(a: u64, b: u64) -> u64 {
    if a + b > u64::MAX {
        u64::MAX
    } else {
        (a + b) as u64
    }
}

impl Stopwatch {
    pub fn new() -> (r: Stopwatch)
        ensures
            r.elapsed == 0,
    {
        Stopwatch { elapsed: 0 }
    }

    /// Advances by `delta`, saturating at the largest representable time.
    pub fn tick(&mut self, delta: u64)
        ensures
            final(self).elapsed == saturating_sum(old(self).elapsed, delta),
    {
        self.elapsed = self.elapsed.saturating_add(delta);
    }
}

/// A one-shot timer, such as the lifetime of a spawned hitbox.
#[derive(Clone, Copy, Debug, PartialEq, Eq, Structural)]
pub struct OnceTimer {
    pub duration: u64,
    pub elapsed: u64,
}

impl OnceTimer {
    pub fn new(duration: u64) -> (r: OnceTimer)
        ensures
            r.duration == duration,
            r.elapsed == 0,
    {
        OnceTimer { duration, elapsed: 0 }
    }

    pub open spec fn is_finished(self) -> bool {
        self.elapsed >= self.duration
    }

    /// Advances the timer and reports whether it has run out; once run out
    /// its elapsed time rests at its duration.
    pub fn tick(&mut self, delta: u64) -> (finished: bool)
        ensures
            finished == (saturating_sum(old(self).elapsed, delta) >= old(self).duration),
            final(self).duration == old(self).duration,
            final(self).elapsed == if finished {
                old(self).duration
            } else {
                saturating_sum(old(self).elapsed, delta)
            },
    {
        let e = self.elapsed.saturating_add(delta);
        if e >= self.duration {
            self.elapsed = self.duration;
            true
        } else {
            self.elapsed = e;
            false
        }
    }
}

/// A timer that starts over each time it runs out, keeping the remainder.
#[derive(Clone, Copy, Debug, PartialEq, Eq, Structural)]
pub struct RepeatingTimer {
    pub duration: u64,
    pub elapsed: u64,
}

impl RepeatingTimer {
    pub fn new(duration: u64) -> (r: RepeatingTimer)
        ensures
            r.duration == duration,
            r.elapsed == 0,
    {
        RepeatingTimer { duration, elapsed: 0 }
    }

    /// Advances the timer and reports whether it ran out during this tick.
    /// A timer of zero duration runs out on every tick.
    pub fn tick(&mut self, delta: u64) -> (finished: bool)
        ensures
            finished == (saturating_sum(old(self).elapsed, delta) >= old(self).duration),
            final(self).duration == old(self).duration,
            final(self).elapsed == if !finished {
                saturating_sum(old(self).elapsed, delta)
            } else if old(self).duration == 0 {
                0
            } else {
                (saturating_sum(old(self).elapsed, delta) % old(self).duration) as u64
            },
    {
        let e = self.elapsed.saturating_add(delta);
        if e >= self.duration {
            if self.duration == 0 {
                self.elapsed = 0;
            } else {
                self.elapsed = e % self.duration;
            }
            true
        } else {
            self.elapsed = e;
            false
        }
    }
}

} // verus!
