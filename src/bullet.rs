//! Projectiles: their kinds, fire rates and wall and floor behaviours.

use vstd::prelude::*;
use crate::body::{Body, Faction, Hitbox, Kind};
use crate::geometry::{clamp_sym, clamp_symmetric, in_range, scaled, SpriteSize, Vec2, MAX_SPEED, MAX_SPRITE};
use crate::random::random_range;
use crate::timer::Timer;
use crate::world::Settings;

verus! {

/// Parts per million: the scale of every probability.
pub const PPM: u32 = 1_000_000;

/// The kinds of projectile.
#[derive(Clone, Copy, Debug, PartialEq, Eq, Structural)]
pub enum Bullet {
    Basic,
    Bomb,
    Small,
}

/// Damage a projectile deals on a hit.
#[derive(Clone, Copy, Debug, PartialEq, Eq, Structural)]
pub struct Damage(pub u32);

/// How often an entity may fire.
#[derive(Clone, Copy, Debug, PartialEq, Eq, Structural)]
pub enum FireRate {
    /// An independent trial each tick, with this chance in parts per million.
    Random(u32),
    /// Each time this repeating timer finishes.
    Regular(Timer),
}

/// What a projectile does on reaching the bottom of the play area.
#[derive(Clone, Copy, Debug, PartialEq, Eq, Structural)]
pub enum FloorBehavior {
    Explode,
    Ignore,
}

/// What a projectile does on reaching a side of the play area.
#[derive(Clone, Copy, Debug, PartialEq, Eq, Structural)]
pub enum WallBehavior {
    Bounce,
    Ignore,
}

impl FireRate {
    /// A regular fire rate with a period of `period` nanoseconds.
    pub fn from_seconds(period: u64) -> (r: FireRate)
        ensures
            r == FireRate::Regular(Timer::new_spec(period, true)),
    {
        FireRate::Regular(Timer::new(period, true))
    }

    /// Whether the entity fires, given a draw `roll` in `[0, PPM)` for a
    /// random rate.
    pub open spec fn ready_spec(self, roll: u32) -> bool {
        match self {
            FireRate::Random(chance) => roll < chance,
            FireRate::Regular(t) => t.finished,
        }
    }

    pub fn ready(&self, roll: u32) -> (r: bool)
        ensures
            r == self.ready_spec(roll),
    {
        match self {
            FireRate::Random(chance) => roll < *chance,
            FireRate::Regular(t) => t.finished(),
        }
    }

    /// Whether the entity fires now: a regular rate asks its timer, a random
    /// rate draws.
    pub fn finished(&self) -> (r: bool)
        ensures
            self matches FireRate::Regular(t) ==> r == t.finished,
            self matches FireRate::Random(c) ==> (c == 0 ==> !r) && (c >= PPM ==> r),
    {
        let roll = random_range(0, PPM as u64) as u32;
        self.ready(roll)
    }

    pub open spec fn ticked(self, delta: u64) -> FireRate {
        match self {
            FireRate::Regular(t) => FireRate::Regular(t.ticked(delta)),
            FireRate::Random(c) => FireRate::Random(c),
        }
    }

    /// Advances a regular rate's timer.
    pub fn tick(&mut self, delta: u64)
        ensures
            *final(self) == old(self).ticked(delta),
    {
        match self {
            FireRate::Regular(t) => t.tick(delta),
            FireRate::Random(_) => {},
        }
    }
}

/// Unscaled sprite extents of the projectile kinds, as the asset service
/// reports them.
#[derive(Clone, Copy, Debug, PartialEq, Eq, Structural)]
pub struct BulletSprites {
    pub basic: SpriteSize,
    pub bomb: SpriteSize,
    pub small: SpriteSize,
}

impl BulletSprites {
    pub open spec fn wf(self) -> bool {
        &&& 0 <= self.basic.width <= MAX_SPRITE && 0 <= self.basic.height <= MAX_SPRITE
        &&& 0 <= self.bomb.width <= MAX_SPRITE && 0 <= self.bomb.height <= MAX_SPRITE
        &&& 0 <= self.small.width <= MAX_SPRITE && 0 <= self.small.height <= MAX_SPRITE
    }
}

impl Bullet {
    /// Hitbox radius before scaling, in milli-units.
    pub open spec fn radius(self) -> int {
        match self {
            Bullet::Basic => 3000,
            Bullet::Bomb => 4000,
            Bullet::Small => 1000,
        }
    }

    pub open spec fn wall_spec(self) -> WallBehavior {
        match self {
            Bullet::Bomb => WallBehavior::Bounce,
            _ => WallBehavior::Ignore,
        }
    }

    pub open spec fn floor_spec(self) -> FloorBehavior {
        match self {
            Bullet::Bomb => FloorBehavior::Explode,
            _ => FloorBehavior::Ignore,
        }
    }

    pub open spec fn sprite(self, s: BulletSprites) -> SpriteSize {
        match self {
            Bullet::Basic => s.basic,
            Bullet::Bomb => s.bomb,
            Bullet::Small => s.small,
        }
    }

    /// The projectile that `spawn_single` makes.
    pub open spec fn single(
        self,
        settings: Settings,
        position: Vec2,
        base_velocity: Vec2,
        acceleration: Vec2,
        angle: int,
        speed: int,
        z: i64,
        faction: Faction,
    ) -> Body {
        let v = settings.compass.polar_spec(angle, speed);
        Body {
            velocity: Some(
                Vec2 {
                    x: crate::geometry::saturated(v.x + base_velocity.x) as i64,
                    y: crate::geometry::saturated(v.y + base_velocity.y) as i64,
                },
            ),
            acceleration: Some(acceleration),
            hitbox: Some(Hitbox { radius: scaled(self.radius(), settings.scale.scale as int) as i64 }),
            damage: Some(Damage(1)),
            faction: Some(faction),
            wall: self.wall_spec(),
            floor: self.floor_spec(),
            despawn_outside: true,
            ..Body::bare(Kind::Bullet(self), position, z, SpriteSize {
                width: scaled(self.sprite(settings.bullets).width as int, settings.scale.scale as int) as i64,
                height: scaled(self.sprite(settings.bullets).height as int, settings.scale.scale as int) as i64,
            })
        }
    }

    /// One projectile of this kind at `position`, moving at `speed` along
    /// `angle` degrees plus `base_velocity`, and belonging to `faction`.
    pub fn spawn_single(
        self,
        settings: &Settings,
        position: Vec2,
        base_velocity: Vec2,
        acceleration: Vec2,
        angle: i64,
        speed: i64,
        z: i64,
        faction: Faction,
    ) -> (r: Body)
        requires
            settings.wf(),
            position.wf(),
            base_velocity.wf(),
            acceleration.wf(),
            0 <= speed <= MAX_SPEED,
        ensures
            r == self.single(
                *settings,
                position,
                base_velocity,
                acceleration,
                angle as int,
                speed as int,
                z,
                faction,
            ),
            r.wf(),
    {
        let (radius, wall, floor, size): (i64, WallBehavior, FloorBehavior, SpriteSize) = match self {
            Bullet::Basic => (3000, WallBehavior::Ignore, FloorBehavior::Ignore, settings.bullets.basic),
            Bullet::Bomb => (4000, WallBehavior::Bounce, FloorBehavior::Explode, settings.bullets.bomb),
            Bullet::Small => (1000, WallBehavior::Ignore, FloorBehavior::Ignore, settings.bullets.small),
        };
        let velocity = settings.compass.polar(angle, speed).plus(base_velocity);
        let hitbox = settings.scale.apply(radius);
        let size = SpriteSize::new(size.width, size.height, settings.scale);
        let mut b = Body::new(Kind::Bullet(self), position, z, size);
        b.velocity = Some(velocity);
        b.acceleration = Some(acceleration);
        b.hitbox = Some(Hitbox { radius: hitbox });
        b.damage = Some(Damage(1));
        b.faction = Some(faction);
        b.wall = wall;
        b.floor = floor;
        b.despawn_outside = true;
        b
    }
}

impl Bullet {
    /// One projectile of this kind for each angle of `angles`, each turned
    /// by `base_angle` degrees, in order.
    pub fn spawn(
        self,
        settings: &Settings,
        position: Vec2,
        base_velocity: Vec2,
        acceleration: Vec2,
        base_angle: i64,
        angles: &Vec<i64>,
        speed: i64,
        z: i64,
        faction: Faction,
    ) -> (r: Vec<Body>)
        requires
            settings.wf(),
            position.wf(),
            base_velocity.wf(),
            acceleration.wf(),
            0 <= speed <= MAX_SPEED,
            forall|k: int| 0 <= k < angles@.len() ==> in_range(#[trigger] angles@[k] as int),
            in_range(base_angle as int),
        ensures
            r@.len() == angles@.len(),
            forall|k: int|
                0 <= k < angles@.len() ==> #[trigger] r@[k] == self.single(
                    *settings,
                    position,
                    base_velocity,
                    acceleration,
                    base_angle + angles@[k],
                    speed as int,
                    z,
                    faction,
                ),
            forall|k: int| 0 <= k < r@.len() ==> (#[trigger] r@[k]).wf(),
    {
        let mut r: Vec<Body> = Vec::new();
        let mut i: usize = 0;
        while i < angles.len()
            invariant
                settings.wf(),
                position.wf(),
                base_velocity.wf(),
                acceleration.wf(),
                0 <= speed <= MAX_SPEED,
                forall|k: int| 0 <= k < angles@.len() ==> in_range(#[trigger] angles@[k] as int),
                in_range(base_angle as int),
                i <= angles@.len(),
                r@.len() == i,
                forall|k: int|
                    0 <= k < i ==> #[trigger] r@[k] == self.single(
                        *settings,
                        position,
                        base_velocity,
                        acceleration,
                        base_angle + angles@[k],
                        speed as int,
                        z,
                        faction,
                    ),
                forall|k: int| 0 <= k < i ==> (#[trigger] r@[k]).wf(),
            decreases angles@.len() - i,
        {
            let a = angles[i];
            assert(in_range(angles@[i as int] as int));
            let b = self.spawn_single(settings, position, base_velocity, acceleration, base_angle + a, speed, z, faction);
            r.push(b);
            i = i + 1;
        }
        r
    }
}

/// The horizontal position and velocity after the wall check: outside
/// `[-bound, bound]` the position is clamped and the velocity reversed.
pub open spec fn bounce_spec(x: int, vx: int, bound: int) -> (int, int) {
    if x > bound || x < -bound {
        (clamp_sym(x, bound), -vx)
    } else {
        (x, vx)
    }
}

/// The wall check of a bouncing projectile.
pub fn bounce(x: i64, vx: i64, bound: i64) -> (r: (i64, i64))
    requires
        in_range(vx as int),
        in_range(bound as int),
    ensures
        (r.0 as int, r.1 as int) == bounce_spec(x as int, vx as int, bound as int),
        bound >= 0 ==> -bound <= r.0 <= bound,
        r.1 == vx || r.1 == -vx,
        (r.1 == -vx && vx != 0) <==> ((x > bound || x < -bound) && vx != 0),
{
    if x > bound || x < -bound {
        (clamp_symmetric(x, bound), -vx)
    } else {
        (x, vx)
    }
}

} // verus!
