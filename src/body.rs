//! The components an entity can carry, gathered in one record.

use vstd::prelude::*;
use crate::animation::{AnimationTimeLimit, AnimationTimer};
use crate::bullet::{Bullet, Damage, FireRate, FloorBehavior, WallBehavior};
use crate::enemy::{Attack, DeathBehavior, Enemy, Health, Movement};
use crate::geometry::{SpriteSize, Vec2, LIMIT, MAX_SPEED};
use crate::player::{InvulnTimer, Speed};

verus! {

/// Which side an entity or a projectile belongs to.
#[derive(Clone, Copy, Debug, PartialEq, Eq, Structural)]
pub enum Faction {
    Player,
    Enemy,
}

/// A sound cue requested from the audio service.
#[derive(Clone, Copy, Debug, PartialEq, Eq, Structural)]
pub enum Sound {
    Explosion,
    Fire,
}

/// A circular collision proxy: its radius in milli-units.
#[derive(Clone, Copy, Debug, PartialEq, Eq, Structural)]
pub struct Hitbox {
    pub radius: i64,
}

/// What an entity is.
#[derive(Clone, Copy, Debug, PartialEq, Eq, Structural)]
pub enum Kind {
    Player,
    Enemy(Enemy),
    Bullet(Bullet),
    Star(StarSize),
    Effect,
}

/// The three sizes of background star.
#[derive(Clone, Copy, Debug, PartialEq, Eq, Structural)]
pub enum StarSize {
    Small,
    Medium,
    Large,
}

/// The components of one entity. A component that an entity lacks is `None`.
#[derive(Clone, Copy, Debug, PartialEq, Eq, Structural)]
pub struct Body {
    pub kind: Kind,
    pub position: Vec2,
    pub z: i64,
    pub size: SpriteSize,
    pub velocity: Option<Vec2>,
    pub acceleration: Option<Vec2>,
    pub hitbox: Option<Hitbox>,
    pub health: Option<Health>,
    /// Set when health changed since the death check last looked.
    pub health_changed: bool,
    pub damage: Option<Damage>,
    pub faction: Option<Faction>,
    pub fire_rate: Option<FireRate>,
    pub attack: Option<Attack>,
    pub death: Option<DeathBehavior>,
    pub movement: Option<Movement>,
    pub wall: WallBehavior,
    pub floor: FloorBehavior,
    /// Removed once it lies wholly outside the play area.
    pub despawn_outside: bool,
    pub animation: Option<AnimationTimer>,
    pub frame: u32,
    pub frames: u32,
    pub time_limit: Option<AnimationTimeLimit>,
    pub speed: Option<Speed>,
    pub invuln: Option<InvulnTimer>,
}

pub open spec fn opt_vec_wf(v: Option<Vec2>) -> bool {
    match v {
        Some(v) => v.wf(),
        None => true,
    }
}

impl Body {
    pub open spec fn wf(self) -> bool {
        &&& self.position.wf()
        &&& self.size.wf()
        &&& opt_vec_wf(self.velocity)
        &&& opt_vec_wf(self.acceleration)
        &&& (self.hitbox matches Some(h) ==> 0 <= h.radius <= LIMIT)
        &&& (self.speed matches Some(s) ==> 0 <= s.0 <= MAX_SPEED)
        &&& self.frames > 0
        &&& self.frame < self.frames
    }

    /// An entity of `kind` at `position`, with no further component.
    pub fn new(kind: Kind, position: Vec2, z: i64, size: SpriteSize) -> (r: Body)
        ensures
            r == Body::bare(kind, position, z, size),
    {
        Body {
            kind,
            position,
            z,
            size,
            velocity: None,
            acceleration: None,
            hitbox: None,
            health: None,
            health_changed: false,
            damage: None,
            faction: None,
            fire_rate: None,
            attack: None,
            death: None,
            movement: None,
            wall: WallBehavior::Ignore,
            floor: FloorBehavior::Ignore,
            despawn_outside: false,
            animation: None,
            frame: 0,
            frames: 1,
            time_limit: None,
            speed: None,
            invuln: None,
        }
    }

    pub open spec fn bare(kind: Kind, position: Vec2, z: i64, size: SpriteSize) -> Body {
        Body {
            kind,
            position,
            z,
            size,
            velocity: None,
            acceleration: None,
            hitbox: None,
            health: None,
            health_changed: false,
            damage: None,
            faction: None,
            fire_rate: None,
            attack: None,
            death: None,
            movement: None,
            wall: WallBehavior::Ignore,
            floor: FloorBehavior::Ignore,
            despawn_outside: false,
            animation: None,
            frame: 0,
            frames: 1,
            time_limit: None,
            speed: None,
            invuln: None,
        }
    }
}

} // verus!
