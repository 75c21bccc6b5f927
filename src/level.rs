//! Waves of enemies: the level table and the spawn controller.

use vstd::prelude::*;
use crate::body::Body;
use crate::enemy::Enemy;
use crate::random::{has_positive, pick_weighted, random_range, weight_sum};
use crate::timer::{SpawnTimer, Timer, NANOS_PER_MILLI};
use crate::world::Settings;

verus! {

/// Delay before the first spawn of a session, in milliseconds.
pub const FIRST_DELAY_MILLIS: u64 = 1000;

/// One wave: a weighted table of enemy kinds, the range of delays between
/// spawns in milliseconds, and how many enemies it holds.
#[derive(Debug)]
pub struct Level {
    pub delay: std::ops::Range<u64>,
    pub enemies: Vec<(Enemy, u32)>,
    pub enemy_limit: u32,
}

impl Level {
    /// The weights of the enemy table, in order.
    pub open spec fn weights(&self) -> Seq<u32> {
        self.enemies@.map_values(|e: (Enemy, u32)| e.1)
    }

    /// The delay range is not empty and fits in nanoseconds, and the weights
    /// have a positive total that fits in `u32`.
    pub open spec fn wf(&self) -> bool {
        &&& self.delay.start < self.delay.end
        &&& self.delay.end <= u64::MAX / NANOS_PER_MILLI
        &&& weight_sum(self.weights(), self.weights().len() as int) <= u32::MAX
        &&& has_positive(self.weights())
    }

    /// The weights of the enemy table.
    pub fn weight_table(&self) -> (r: Vec<u32>)
        ensures
            r@ == self.weights(),
    {
        let mut r: Vec<u32> = Vec::new();
        let mut i: usize = 0;
        while i < self.enemies.len()
            invariant
                i <= self.enemies@.len(),
                r@ == self.weights().take(i as int),
            decreases self.enemies@.len() - i,
        {
            r.push(self.enemies[i].1);
            assert(self.weights().take(i + 1) == self.weights().take(i as int).push(self.weights()[i as int]));
            i = i + 1;
        }
        assert(self.weights().take(self.enemies@.len() as int) == self.weights());
        r
    }
}

/// Every level of the table is well formed.
pub open spec fn levels_wf(levels: Seq<Level>) -> bool {
    forall|i: int| 0 <= i < levels.len() ==> (#[trigger] levels[i]).wf()
}

/// The active wave, or `None` once every wave is done.
#[derive(Clone, Copy, Debug, PartialEq, Eq, Structural)]
pub struct CurrentLevel {
    pub level: Option<usize>,
}

/// Enemies still to spawn in the active wave.
#[derive(Clone, Copy, Debug, PartialEq, Eq, Structural)]
pub struct EnemiesLeft {
    pub count: u32,
}

/// The session record of the spawn controller: the active wave, its
/// remaining quota and the countdown to the next spawn.
#[derive(Clone, Copy, Debug, PartialEq, Eq, Structural)]
pub struct CurrentLevelBundle {
    pub enemies_left: EnemiesLeft,
    pub level: CurrentLevel,
    pub timer: SpawnTimer,
}

impl CurrentLevelBundle {
    /// The active wave, if any, is one of the `n` waves of the table.
    pub open spec fn wf(self, n: int) -> bool {
        self.level.level matches Some(i) ==> i < n
    }

    /// The record at the start of a session: the first wave, its full
    /// quota, and a one second countdown.
    pub open spec fn initial(levels: Seq<Level>) -> CurrentLevelBundle {
        CurrentLevelBundle {
            enemies_left: EnemiesLeft { count: levels[0].enemy_limit },
            level: CurrentLevel { level: Some(0) },
            timer: SpawnTimer { timer: Timer::new_spec((FIRST_DELAY_MILLIS * NANOS_PER_MILLI) as u64, false) },
        }
    }

    pub fn new(levels: &Vec<Level>) -> (r: CurrentLevelBundle)
        requires
            levels@.len() > 0,
        ensures
            r == CurrentLevelBundle::initial(levels@),
            r.wf(levels@.len() as int),
    {
        CurrentLevelBundle {
            enemies_left: EnemiesLeft { count: levels[0].enemy_limit },
            level: CurrentLevel { level: Some(0) },
            timer: SpawnTimer::new(FIRST_DELAY_MILLIS * NANOS_PER_MILLI),
        }
    }

    /// Restarts the controller at the first wave, as at the start of a
    /// session.
    pub fn reset_level(&mut self, levels: &Vec<Level>)
        requires
            levels@.len() > 0,
        ensures
            *final(self) == CurrentLevelBundle::initial(levels@),
    {
        *self = CurrentLevelBundle::new(levels);
    }

    /// The record after one tick of `delta` nanoseconds, and whether an
    /// enemy is due. A wave whose quota is spent gives way to the next one,
    /// or to none after the last; otherwise the countdown advances, and when
    /// it finishes an enemy is due and the quota falls by one.
    pub open spec fn advance_spec(self, levels: Seq<Level>, delta: u64) -> (CurrentLevelBundle, bool) {
        match self.level.level {
            None => (self, false),
            Some(i) => if self.enemies_left.count == 0 {
                if i + 1 < levels.len() {
                    (CurrentLevelBundle {
                        enemies_left: EnemiesLeft { count: levels[i + 1].enemy_limit },
                        level: CurrentLevel { level: Some((i + 1) as usize) },
                        timer: SpawnTimer { timer: Timer { elapsed: 0, finished: false, ..self.timer.timer } },
                    }, false)
                } else {
                    (CurrentLevelBundle { level: CurrentLevel { level: None }, ..self }, false)
                }
            } else {
                let t = self.timer.timer.ticked(delta);
                if t.finished {
                    (CurrentLevelBundle {
                        enemies_left: EnemiesLeft { count: (self.enemies_left.count - 1) as u32 },
                        timer: SpawnTimer { timer: t },
                        ..self
                    }, true)
                } else {
                    (CurrentLevelBundle { timer: SpawnTimer { timer: t }, ..self }, false)
                }
            },
        }
    }

    /// One tick of the controller; returns whether an enemy is due.
    pub fn advance(&mut self, levels: &Vec<Level>, delta: u64) -> (due: bool)
        requires
            old(self).wf(levels@.len() as int),
        ensures
            (*final(self), due) == old(self).advance_spec(levels@, delta),
            final(self).wf(levels@.len() as int),
    {
        match self.level.level {
            None => false,
            Some(i) => {
                if self.enemies_left.count == 0 {
                    if i < levels.len() - 1 {
                        self.level.level = Some(i + 1);
                        self.enemies_left.count = levels[i + 1].enemy_limit;
                        self.timer.timer.reset();
                    } else {
                        self.level.level = None;
                    }
                    false
                } else {
                    self.timer.tick(delta);
                    if self.timer.finished() {
                        self.enemies_left.count = self.enemies_left.count - 1;
                        true
                    } else {
                        false
                    }
                }
            },
        }
    }

    /// Restarts the countdown with a delay of `millis` milliseconds.
    pub fn reseed(&mut self, millis: u64)
        requires
            millis <= u64::MAX / NANOS_PER_MILLI,
        ensures
            *final(self) == (CurrentLevelBundle {
                timer: SpawnTimer { timer: Timer::new_spec((millis * NANOS_PER_MILLI) as u64, old(self).timer.timer.repeating) },
                ..*old(self)
            }),
    {
        self.timer.reset(millis);
    }

    /// One tick of the controller. When an enemy is due, its kind is drawn
    /// from the active wave's table by weight, it is made with fresh random
    /// choices, and the countdown restarts with a delay drawn from the wave's
    /// range. Returns the new enemy.
    pub fn spawn_enemies(&mut self, levels: &Vec<Level>, delta: u64, settings: &Settings) -> (r: Option<Body>)
        requires
            old(self).wf(levels@.len() as int),
            levels_wf(levels@),
            settings.wf(),
        ensures
            final(self).wf(levels@.len() as int),
            r.is_some() == old(self).advance_spec(levels@, delta).1,
            !old(self).advance_spec(levels@, delta).1 ==> *final(self) == old(self).advance_spec(levels@, delta).0,
            old(self).advance_spec(levels@, delta).1 ==> {
                let a = old(self).advance_spec(levels@, delta).0;
                let lv = levels@[a.level.level.unwrap() as int];
                &&& final(self).enemies_left == a.enemies_left
                &&& final(self).level == a.level
                &&& !final(self).timer.timer.finished
                &&& final(self).timer.timer.elapsed == 0
                &&& lv.delay.start * NANOS_PER_MILLI <= final(self).timer.timer.duration
                &&& final(self).timer.timer.duration < lv.delay.end * NANOS_PER_MILLI
                &&& exists|k: int| 0 <= k < lv.enemies@.len() && lv.enemies@[k].1 > 0
                    && r.unwrap().kind == crate::body::Kind::Enemy(lv.enemies@[k].0)
            },
            r matches Some(b) ==> b.wf(),
    {
        let due = self.advance(levels, delta);
        if !due {
            return None;
        }
        let i = self.level.level.unwrap();
        let level = &levels[i];
        assert(level.wf());
        let weights = level.weight_table();
        let pick = pick_weighted(&weights);
        let k = pick.unwrap();
        let enemy = level.enemies[k].0;
        let body = enemy.spawn_single(settings);
        let delay = random_range(level.delay.start, level.delay.end);
        self.reseed(delay);
        assert(delay * NANOS_PER_MILLI >= level.delay.start * NANOS_PER_MILLI) by (nonlinear_arith)
            requires delay >= level.delay.start;
        assert(delay * NANOS_PER_MILLI < level.delay.end * NANOS_PER_MILLI) by (nonlinear_arith)
            requires delay < level.delay.end;
        assert(level.enemies@[k as int].1 == weights@[k as int]);
        Some(body)
    }
}

/// The campaign: a single wave of ten basic enemies, spawned 800 to 3200
/// milliseconds apart.
pub fn default_levels() -> (r: Vec<Level>)
    ensures
        r@.len() == 1,
        r@[0].delay == (800u64..3200u64),
        r@[0].enemies@ == seq![(Enemy::Basic, 1u32)],
        r@[0].enemy_limit == 10,
        levels_wf(r@),
{
    let levels = vec![Level { delay: 800..3200, enemies: vec![(Enemy::Basic, 1)], enemy_limit: 10 }];
    proof {
        let w = levels@[0].weights();
        assert(w[0] == 1u32);
        assert(weight_sum(w, 0) == 0);
        assert(weight_sum(w, 1) == 1);
        assert(has_positive(w));
    }
    levels
}

} // verus!
