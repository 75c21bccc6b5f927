//! Countdown and interval timers, and a free-running stopwatch.
//!
//! Time is counted in nanoseconds. Elapsed time that would pass `u64::MAX`
//! stays at `u64::MAX`. A repeating timer keeps its overshoot by integer
//! remainder; bevy's `Timer` works the roll-over out through an `f32`
//! percentage, which no integer contract can state, so it is not used here.

use vstd::prelude::*;

verus! {

/// Nanoseconds in one millisecond.
pub const NANOS_PER_MILLI: u64 = 1_000_000;

/// `a + b`, held at `u64::MAX`.
pub open spec fn sat_add(a: u64, b: u64) -> u64 {
    if a + b > u64::MAX {
        u64::MAX
    } else {
        (a + b) as u64
    }
}

/// A free-running stopwatch; it never resets itself.
#[derive(Clone, Copy, Debug, PartialEq, Eq, Structural)]
pub struct Stopwatch {
    pub elapsed: u64,
}

impl Stopwatch {
    pub fn new() -> (r: Stopwatch)
        ensures
            r.elapsed == 0,
    {
        Stopwatch { elapsed: 0 }
    }

    /// Advances the stopwatch by `delta`.
    pub fn tick(&mut self, delta: u64)
        ensures
            final(self).elapsed == sat_add(old(self).elapsed, delta),
    {
        self.elapsed = self.elapsed.saturating_add(delta);
    }
}

/// A timer with a configured duration and elapsed progress. A repeating timer
/// rolls over when it finishes and keeps the overshoot; a one-shot timer stays
/// finished, with its elapsed time at its duration, until it is reset.
#[derive(Clone, Copy, Debug, PartialEq, Eq, Structural)]
pub struct Timer {
    pub duration: u64,
    pub elapsed: u64,
    pub repeating: bool,
    pub finished: bool,
}

impl Timer {
    /// The timer after `delta` more nanoseconds.
    pub open spec fn ticked(self, delta: u64) -> Timer {
        if !self.repeating && self.finished {
            self
        } else {
            let sum = sat_add(self.elapsed, delta);
            let done = sum >= self.duration;
            Timer {
                duration: self.duration,
                elapsed: if !done {
                    sum
                } else if !self.repeating {
                    self.duration
                } else if self.duration == 0 {
                    0
                } else {
                    (sum % self.duration) as u64
                },
                repeating: self.repeating,
                finished: done,
            }
        }
    }

    /// A timer of `duration` nanoseconds, with nothing elapsed.
    pub fn new(duration: u64, repeating: bool) -> (r: Timer)
        ensures
            r.duration == duration,
            r.elapsed == 0,
            r.repeating == repeating,
            !r.finished,
    {
        Timer { duration, elapsed: 0, repeating, finished: false }
    }

    /// Whether elapsed time reached the duration on the last tick.
    pub fn finished(&self) -> (r: bool)
        ensures
            r == self.finished,
    {
        self.finished
    }

    pub fn elapsed(&self) -> (r: u64)
        ensures
            r == self.elapsed,
    {
        self.elapsed
    }

    pub fn duration(&self) -> (r: u64)
        ensures
            r == self.duration,
    {
        self.duration
    }

    /// Advances the timer by `delta` nanoseconds.
    pub fn tick(&mut self, delta: u64)
        ensures
            *final(self) == old(self).ticked(delta),
            final(self).repeating && final(self).duration > 0 ==> final(self).elapsed
                < final(self).duration,
    {
        if !self.repeating && self.finished {
            return;
        }
        let sum = self.elapsed.saturating_add(delta);
        let done = sum >= self.duration;
        self.finished = done;
        if !done {
            self.elapsed = sum;
        } else if !self.repeating {
            self.elapsed = self.duration;
        } else if self.duration == 0 {
            self.elapsed = 0;
        } else {
            self.elapsed = sum % self.duration;
        }
    }

    /// Restarts the timer: nothing elapsed, not finished.
    pub fn reset(&mut self)
        ensures
            final(self).duration == old(self).duration,
            final(self).repeating == old(self).repeating,
            final(self).elapsed == 0,
            !final(self).finished,
    {
        self.elapsed = 0;
        self.finished = false;
    }

    pub fn set_duration(&mut self, duration: u64)
        ensures
            *final(self) == (Timer { duration, ..*old(self) }),
    {
        self.duration = duration;
    }

    /// Sets elapsed time and nothing else; whether the timer is finished is
    /// decided on the next tick.
    pub fn set_elapsed(&mut self, elapsed: u64)
        ensures
            *final(self) == (Timer { elapsed, ..*old(self) }),
    {
        self.elapsed = elapsed;
    }
}

/// A one-shot timer whose duration is chosen anew at each reset; it paces
/// enemy spawns.
#[derive(Clone, Copy, Debug, PartialEq, Eq, Structural)]
pub struct SpawnTimer {
    pub timer: Timer,
}

impl SpawnTimer {
    /// A one-shot spawn timer of `duration` nanoseconds.
    pub fn new(duration: u64) -> (r: SpawnTimer)
        ensures
            r.timer == Timer::new_spec(duration, false),
    {
        SpawnTimer { timer: Timer::new(duration, false) }
    }

    pub fn finished(&self) -> (r: bool)
        ensures
            r == self.timer.finished,
    {
        self.timer.finished()
    }

    /// Restarts the timer with a duration of `millis` milliseconds.
    pub fn reset(&mut self, millis: u64)
        requires
            millis <= u64::MAX / NANOS_PER_MILLI,
        ensures
            final(self).timer == Timer::new_spec(
                (millis * NANOS_PER_MILLI) as u64,
                old(self).timer.repeating,
            ),
    {
        self.timer.set_duration(millis * NANOS_PER_MILLI);
        self.timer.reset();
    }

    pub fn tick(&mut self, delta: u64)
        ensures
            final(self).timer == old(self).timer.ticked(delta),
    {
        self.timer.tick(delta);
    }
}

impl Timer {
    /// A fresh timer, as `new` makes it.
    pub open spec fn new_spec(duration: u64, repeating: bool) -> Timer {
        Timer { duration, elapsed: 0, repeating, finished: false }
    }
}

} // verus!
