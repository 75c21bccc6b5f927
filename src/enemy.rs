//! Enemies: their kinds, health, movement and how they are made.

use vstd::prelude::*;
use crate::animation::{AnimationTimer, FRAME_NANOS};
use crate::body::{Body, Hitbox, Kind};
use crate::bullet::FireRate;
use crate::geometry::{
    clamp_sym, clamp_symmetric, in_range, inner_bound, outer_bound, scaled, SpriteSize, Vec2,
};
use crate::random::random_range;
use crate::timer::Timer;
use crate::world::Settings;

verus! {

/// Chance per tick, in parts per million, that a strafing enemy turns.
pub const STRAFE_TURN_PPM: u32 = 2000;

/// Chance per tick, in parts per million, that a bomber drops a bomb.
pub const BOMBER_FIRE_PPM: u32 = 5000;

/// Hitbox radius of every enemy, in milli-units.
pub const ENEMY_RADIUS: i64 = 31_000;

/// The projectile pattern an enemy fires.
#[derive(Clone, Copy, Debug, PartialEq, Eq, Structural)]
pub enum Attack {
    Basic,
    Bomb,
}

/// What an enemy leaves behind when destroyed, besides an explosion.
#[derive(Clone, Copy, Debug, PartialEq, Eq, Structural)]
pub enum DeathBehavior {
    Plain,
    Star,
}

/// The kinds of enemy.
#[derive(Clone, Copy, Debug, PartialEq, Eq, Structural)]
pub enum Enemy {
    Basic,
    Bomber,
}

/// How an enemy steers.
#[derive(Clone, Copy, Debug, PartialEq, Eq, Structural)]
pub enum Movement {
    Down,
    Strafe,
}

/// Current health; it never goes below zero.
#[derive(Clone, Copy, Debug, PartialEq, Eq, Structural)]
pub struct Health {
    pub current: u32,
}

impl Health {
    /// Full health of `amount`.
    pub fn new(amount: u32) -> (r: Health)
        ensures
            r.current == amount,
    {
        Health { current: amount }
    }

    /// Subtracts `amount`, stopping at zero.
    pub fn damage(&mut self, amount: u32)
        ensures
            final(self).current == old(self).current - vstd::math::min(old(self).current as int, amount as int),
            final(self).current == (if amount >= old(self).current {
                0
            } else {
                old(self).current - amount
            }),
    {
        self.current = self.current.saturating_sub(amount);
    }
}

/// The horizontal position and velocity of a strafing enemy after its turn
/// check: it turns when `turn` is drawn or when it lies outside
/// `[-bound, bound]`, and is then clamped into it.
pub open spec fn strafe_spec(x: int, vx: int, bound: int, turn: bool) -> (int, int) {
    if turn || x > bound || x < -bound {
        (clamp_sym(x, bound), -vx)
    } else {
        (x, vx)
    }
}

/// The turn check of a strafing enemy.
pub fn strafe(x: i64, vx: i64, bound: i64, turn: bool) -> (r: (i64, i64))
    requires
        in_range(vx as int),
        in_range(bound as int),
    ensures
        (r.0 as int, r.1 as int) == strafe_spec(x as int, vx as int, bound as int, turn),
        bound >= 0 && (turn || x > bound || x < -bound) ==> -bound <= r.0 <= bound,
{
    if turn || x > bound || x < -bound {
        (clamp_symmetric(x, bound), -vx)
    } else {
        (x, vx)
    }
}

/// The random choices made when an enemy is spawned.
#[derive(Clone, Copy, Debug, PartialEq, Eq, Structural)]
pub struct EnemyRolls {
    /// Period of a regular fire rate, in nanoseconds.
    pub fire_period: u64,
    /// Speed, in milli-units per tick.
    pub speed: i64,
    /// Whether a strafing enemy starts to the left.
    pub leftward: bool,
    /// Horizontal position.
    pub x: i64,
}

/// Unscaled frame size of an enemy's sprite sheet, in milli-units.
pub open spec fn frame_size(e: Enemy) -> (int, int) {
    match e {
        Enemy::Basic => (50_000, 43_000),
        Enemy::Bomber => (52_000, 31_000),
    }
}

/// Frames in an enemy's sprite sheet.
pub const ENEMY_FRAMES: u32 = 4;

impl Enemy {
    /// Scaled sprite extent of this kind.
    pub open spec fn size_spec(self, settings: Settings) -> SpriteSize {
        SpriteSize {
            width: scaled(frame_size(self).0, settings.scale.scale as int) as i64,
            height: scaled(frame_size(self).1, settings.scale.scale as int) as i64,
        }
    }

    /// Half the range of horizontal spawn positions.
    pub open spec fn spawn_half_width(self, settings: Settings) -> int {
        (settings.window.width - self.size_spec(settings).width) / 2
    }

    /// The rolls are ones that `roll` can give.
    pub open spec fn rolls_ok(self, settings: Settings, r: EnemyRolls) -> bool {
        let w = self.spawn_half_width(settings);
        &&& (w > 0 ==> -w <= r.x < w)
        &&& (w <= 0 ==> r.x == 0)
        &&& match self {
            Enemy::Basic => 400_000_000 <= r.fire_period < 550_000_000 && 1000 <= r.speed < 2000,
            Enemy::Bomber => 1500 <= r.speed < 2000,
        }
    }

    /// The enemy that `spawn_with` makes.
    pub open spec fn spawned(self, settings: Settings, r: EnemyRolls) -> Body {
        let size = self.size_spec(settings);
        let y = (settings.window.height + size.height) / 2;
        let base = Body {
            hitbox: Some(Hitbox { radius: ENEMY_RADIUS }),
            despawn_outside: true,
            animation: Some(AnimationTimer { elapsed: None, timer: Timer::new_spec(FRAME_NANOS, true) }),
            frames: ENEMY_FRAMES,
            ..Body::bare(Kind::Enemy(self), Vec2 { x: r.x, y: y as i64 }, 2, size)
        };
        match self {
            Enemy::Basic => Body {
                velocity: Some(Vec2 { x: 0, y: (-r.speed) as i64 }),
                fire_rate: Some(FireRate::Regular(Timer::new_spec(r.fire_period, true))),
                health: Some(Health { current: 1 }),
                attack: Some(Attack::Basic),
                death: Some(DeathBehavior::Plain),
                movement: Some(Movement::Down),
                ..base
            },
            Enemy::Bomber => Body {
                velocity: Some(
                    Vec2 {
                        x: if r.leftward { (-r.speed) as i64 } else { r.speed },
                        y: -(r.speed / 4) as i64,
                    },
                ),
                fire_rate: Some(FireRate::Random(BOMBER_FIRE_PPM)),
                health: Some(Health { current: 2 }),
                attack: Some(Attack::Bomb),
                death: Some(DeathBehavior::Star),
                movement: Some(Movement::Strafe),
                ..base
            },
        }
    }

    /// The enemy of this kind made with the given rolls, entering at the top
    /// edge of the window.
    pub fn spawn_with(self, settings: &Settings, rolls: EnemyRolls) -> (r: Body)
        requires
            settings.wf(),
            in_range(rolls.x as int),
            0 <= rolls.speed <= 1_000_000,
        ensures
            r == self.spawned(*settings, rolls),
            r.wf(),
    {
        let (w, h): (i64, i64) = match self {
            Enemy::Basic => (50_000, 43_000),
            Enemy::Bomber => (52_000, 31_000),
        };
        let size = SpriteSize::new(w, h, settings.scale);
        let y = outer_bound(settings.window.height, size.height);
        let mut b = Body::new(Kind::Enemy(self), Vec2::new(rolls.x, y), 2, size);
        b.hitbox = Some(Hitbox { radius: ENEMY_RADIUS });
        b.despawn_outside = true;
        b.animation = Some(AnimationTimer::new(FRAME_NANOS));
        b.frames = ENEMY_FRAMES;
        match self {
            Enemy::Basic => {
                b.velocity = Some(Vec2::new(0, -rolls.speed));
                b.fire_rate = Some(FireRate::from_seconds(rolls.fire_period));
                b.health = Some(Health::new(1));
                b.attack = Some(Attack::Basic);
                b.death = Some(DeathBehavior::Plain);
                b.movement = Some(Movement::Down);
            },
            Enemy::Bomber => {
                let vx = if rolls.leftward { -rolls.speed } else { rolls.speed };
                b.velocity = Some(Vec2::new(vx, -(rolls.speed / 4)));
                b.fire_rate = Some(FireRate::Random(BOMBER_FIRE_PPM));
                b.health = Some(Health::new(2));
                b.attack = Some(Attack::Bomb);
                b.death = Some(DeathBehavior::Star);
                b.movement = Some(Movement::Strafe);
            },
        }
        b
    }

    /// Draws the random choices for an enemy of this kind.
    pub fn roll(self, settings: &Settings) -> (r: EnemyRolls)
        requires
            settings.wf(),
        ensures
            self.rolls_ok(*settings, r),
    {
        let (w, h): (i64, i64) = match self {
            Enemy::Basic => (50_000, 43_000),
            Enemy::Bomber => (52_000, 31_000),
        };
        let size = SpriteSize::new(w, h, settings.scale);
        let half = inner_bound(settings.window.width, size.width);
        let x = if half > 0 {
            random_range(0, 2 * half as u64) as i64 - half
        } else {
            0
        };
        match self {
            Enemy::Basic => {
                let fire_period = random_range(400_000_000, 550_000_000);
                let speed = random_range(1000, 2000) as i64;
                EnemyRolls { fire_period, speed, leftward: false, x }
            },
            Enemy::Bomber => {
                let speed = random_range(1500, 2000) as i64;
                let leftward = random_range(0, 2) == 1;
                EnemyRolls { fire_period: 0, speed, leftward, x }
            },
        }
    }

    /// An enemy of this kind with freshly drawn speed, fire rate and
    /// position.
    pub fn spawn_single(self, settings: &Settings) -> (r: Body)
        requires
            settings.wf(),
        ensures
            exists|rolls: EnemyRolls|
                self.rolls_ok(*settings, rolls) && r == #[trigger] self.spawned(*settings, rolls),
            r.wf(),
    {
        let rolls = self.roll(settings);
        self.spawn_with(settings, rolls)
    }
}

} // verus!
