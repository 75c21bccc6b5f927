//! Looping sprite animation and timed visual effects.

use vstd::prelude::*;
use crate::body::{Body, Kind};
use crate::geometry::{scaled, SpriteSize, Vec2};
use crate::timer::{sat_add, Stopwatch, Timer};
use crate::world::Settings;

verus! {

/// Frames in the explosion sprite sheet.
pub const EXPLOSION_FRAMES: u32 = 12;

/// Nanoseconds each explosion frame is shown.
pub const EXPLOSION_FRAME_NANOS: u64 = 100_000_000;

/// Side of an explosion frame, in milli-units.
pub const EXPLOSION_SIDE: i64 = 96_000;

/// Nanoseconds each frame of a looping sprite is shown.
pub const FRAME_NANOS: u64 = 100_000_000;

/// The full duration of a timed effect: after it, the effect is removed.
#[derive(Clone, Copy, Debug, PartialEq, Eq, Structural)]
pub struct AnimationTimeLimit {
    pub duration: u64,
}

impl AnimationTimeLimit {
    /// The limit of an animation of `frames` frames, each shown for
    /// `per_frame` nanoseconds.
    pub fn new(per_frame: u64, frames: u32) -> (r: AnimationTimeLimit)
        requires
            per_frame * frames <= u64::MAX,
        ensures
            r.duration == per_frame * frames,
    {
        AnimationTimeLimit { duration: per_frame * frames as u64 }
    }
}

/// A repeating frame timer, and for a timed effect a stopwatch that counts
/// the total time since the effect began.
#[derive(Clone, Copy, Debug, PartialEq, Eq, Structural)]
pub struct AnimationTimer {
    pub elapsed: Option<Stopwatch>,
    pub timer: Timer,
}

impl AnimationTimer {
    /// Whether the stopwatch has reached `limit`; false without a stopwatch.
    pub open spec fn reached(self, limit: u64) -> bool {
        match self.elapsed {
            Some(s) => s.elapsed >= limit,
            None => false,
        }
    }

    /// A looping animation that shows each frame for `period` nanoseconds.
    pub fn new(period: u64) -> (r: AnimationTimer)
        ensures
            r.elapsed.is_none(),
            r.timer == Timer::new_spec(period, true),
    {
        AnimationTimer { elapsed: None, timer: Timer::new(period, true) }
    }

    /// A looping animation that also counts its total time.
    pub fn with_elapsed(period: u64) -> (r: AnimationTimer)
        ensures
            r.elapsed == Some(Stopwatch { elapsed: 0 }),
            r.timer == Timer::new_spec(period, true),
    {
        AnimationTimer { elapsed: Some(Stopwatch::new()), timer: Timer::new(period, true) }
    }

    /// Whether at least `duration` nanoseconds have passed in total.
    pub fn elapsed(&self, duration: u64) -> (r: bool)
        ensures
            r == self.reached(duration),
    {
        match &self.elapsed {
            Some(s) => s.elapsed >= duration,
            None => false,
        }
    }

    /// Whether the frame timer finished on the last tick.
    pub fn finished(&self) -> (r: bool)
        ensures
            r == self.timer.finished,
    {
        self.timer.finished()
    }

    /// Advances the frame timer and the stopwatch by `delta`.
    pub fn tick(&mut self, delta: u64)
        ensures
            final(self).timer == old(self).timer.ticked(delta),
            final(self).elapsed == match old(self).elapsed {
                Some(s) => Some(Stopwatch { elapsed: sat_add(s.elapsed, delta) }),
                None => None::<Stopwatch>,
            },
    {
        match &mut self.elapsed {
            Some(s) => s.tick(delta),
            None => {},
        }
        self.timer.tick(delta);
    }
}

/// The frame shown after `index` in a loop of `frames` frames.
pub fn next_frame(index: u32, frames: u32) -> (r: u32)
    requires
        frames > 0,
    ensures
        r == (index + 1) % (frames as int),
        r < frames,
{
    ((index as u64 + 1) % frames as u64) as u32
}

/// Whether a timed effect is due for removal: its stopwatch has reached the
/// limit, whatever its frame timer shows.
pub fn despawn_due(timer: &AnimationTimer, limit: &AnimationTimeLimit) -> (r: bool)
    ensures
        r == timer.reached(limit.duration),
{
    timer.elapsed(limit.duration)
}

/// The explosion effect left where an entity was destroyed.
pub open spec fn explosion_spec(settings: Settings, position: Vec2, z: i64) -> Body {
    let side = scaled(EXPLOSION_SIDE as int, settings.scale.scale as int) as i64;
    Body {
        animation: Some(AnimationTimer { elapsed: Some(Stopwatch { elapsed: 0 }), timer: Timer::new_spec(EXPLOSION_FRAME_NANOS, true) }),
        frames: EXPLOSION_FRAMES,
        time_limit: Some(AnimationTimeLimit { duration: (EXPLOSION_FRAME_NANOS * EXPLOSION_FRAMES) as u64 }),
        ..Body::bare(Kind::Effect, position, z, SpriteSize { width: side, height: side })
    }
}

/// An explosion at `position` and depth `z`: twelve frames of a tenth of a
/// second each, removed once all twelve have been shown.
pub fn spawn_explosion(settings: &Settings, position: Vec2, z: i64) -> (r: Body)
    requires
        settings.wf(),
        position.wf(),
    ensures
        r == explosion_spec(*settings, position, z),
        r.wf(),
{
    let size = SpriteSize::new(EXPLOSION_SIDE, EXPLOSION_SIDE, settings.scale);
    let mut b = Body::new(Kind::Effect, position, z, size);
    b.animation = Some(AnimationTimer::with_elapsed(EXPLOSION_FRAME_NANOS));
    b.frames = EXPLOSION_FRAMES;
    b.time_limit = Some(AnimationTimeLimit::new(EXPLOSION_FRAME_NANOS, EXPLOSION_FRAMES));
    b
}

} // verus!
