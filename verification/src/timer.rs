//! Repeating countdown timers, advanced once per simulation tick.
//!
//! A timer accumulates elapsed milliseconds; when the accumulation
//! crosses the duration during a tick, the timer reports itself finished
//! for that one tick and wraps its remainder.  Several crossings within
//! a single long tick collapse into one completion.  A tick of zero
//! milliseconds never reports a completion.

use vstd::prelude::*;

verus! {

/// Upper bound on a single tick's elapsed time (in milliseconds) and on
/// a timer's duration; keeps the accumulation inside `u64`.
pub const MAX_TICK_MS: u64 = 1_000_000_000;

/// A repeating timer counted in milliseconds.
#[derive(Clone, Copy, PartialEq, Eq, Structural, Debug)]
pub struct RepeatingTimer {
    pub duration_ms: u64,
    pub elapsed_ms: u64,
    pub fired: bool,
}

/// Well-formed timers have a positive, bounded duration and keep their
/// elapsed time strictly below it.
pub open spec fn timer_wf(t: RepeatingTimer) -> bool {
    0 < t.duration_ms <= MAX_TICK_MS && t.elapsed_ms < t.duration_ms
}

/// The timer after one tick of `dt` milliseconds.
pub open spec fn tick_spec(t: RepeatingTimer, dt: u64) -> RepeatingTimer {
    if t.elapsed_ms + dt >= t.duration_ms {
        RepeatingTimer {
            duration_ms: t.duration_ms,
            elapsed_ms: ((t.elapsed_ms + dt) % (t.duration_ms as int)) as u64,
            fired: true,
        }
    } else {
        RepeatingTimer {
            duration_ms: t.duration_ms,
            elapsed_ms: (t.elapsed_ms + dt) as u64,
            fired: false,
        }
    }
}

/// The timer after being reset: nothing elapsed, nothing reported.
pub open spec fn reset_spec(t: RepeatingTimer) -> RepeatingTimer {
    RepeatingTimer { duration_ms: t.duration_ms, elapsed_ms: 0, fired: false }
}

/// Ticking preserves well-formedness.
pub proof fn lemma_tick_wf(t: RepeatingTimer, dt: u64)
    requires
        timer_wf(t),
    ensures
        timer_wf(tick_spec(t, dt)),
{
    if t.elapsed_ms + dt >= t.duration_ms {
        vstd::arithmetic::div_mod::lemma_mod_division_less_than_divisor(
            t.elapsed_ms + dt,
            t.duration_ms as int,
        );
    }
}

impl RepeatingTimer {
    /// A fresh repeating timer of the given duration.
    pub fn new(duration_ms: u64) -> (t: RepeatingTimer)
        requires
            0 < duration_ms <= MAX_TICK_MS,
        ensures
            t == (RepeatingTimer { duration_ms, elapsed_ms: 0, fired: false }),
            timer_wf(t),
    {
        RepeatingTimer { duration_ms, elapsed_ms: 0, fired: false }
    }

    /// Advance the timer by `dt` milliseconds.
    pub fn tick(&mut self, dt: u64)
        requires
            timer_wf(*old(self)),
            dt <= MAX_TICK_MS,
        ensures
            *final(self) == tick_spec(*old(self), dt),
            timer_wf(*final(self)),
    {
        proof {
            lemma_tick_wf(*self, dt);
        }
        let total: u64 = self.elapsed_ms + dt;
        if total >= self.duration_ms {
            self.elapsed_ms = total % self.duration_ms;
            self.fired = true;
        } else {
            self.elapsed_ms = total;
            self.fired = false;
        }
    }

    /// Whether the timer completed an interval during the last tick.
    pub fn just_finished(&self) -> (r: bool)
        ensures
            r == self.fired,
    {
        self.fired
    }

    /// For a repeating timer, finishing is the same one-tick edge as
    /// `just_finished`.
    pub fn finished(&self) -> (r: bool)
        ensures
            r == self.fired,
    {
        self.fired
    }

    /// Start the current interval over.
    pub fn reset(&mut self)
        ensures
            *final(self) == reset_spec(*old(self)),
    {
        self.elapsed_ms = 0;
        self.fired = false;
    }
}

} // verus!
