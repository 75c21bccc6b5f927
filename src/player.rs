//! The player: its invulnerability timer, how it is made and how it moves.

use vstd::prelude::*;
use crate::animation::{AnimationTimer, FRAME_NANOS};
use crate::body::{Body, Faction, Hitbox, Kind, Sound};
use crate::bullet::{Bullet, FireRate, PPM};
use crate::enemy::{Health, ENEMY_FRAMES};
use crate::geometry::{milli_of, scaled, Compass, SpriteSize, Vec2, MAX_SPEED};
use crate::random::random_range;
use crate::timer::Timer;
use crate::world::{lemma_same_ids, spawns_wf, Command, Commands, Entity, Settings, World};

verus! {

/// Invulnerability window after a hit; it starts out elapsed.
#[derive(Clone, Copy, Debug, PartialEq, Eq, Structural)]
pub struct InvulnTimer {
    pub timer: Timer,
}

impl InvulnTimer {
    /// A window of `duration` nanoseconds, already run out.
    pub fn new(duration: u64) -> (r: InvulnTimer)
        ensures
            r.timer == (Timer { elapsed: duration, ..Timer::new_spec(duration, false) }),
    {
        let mut timer = Timer::new(duration, false);
        timer.set_elapsed(duration);
        InvulnTimer { timer }
    }

    pub fn finished(&self) -> (r: bool)
        ensures
            r == self.timer.finished,
    {
        self.timer.finished()
    }

    pub fn tick(&mut self, delta: u64)
        ensures
            final(self).timer == old(self).timer.ticked(delta),
    {
        self.timer.tick(delta);
    }

    pub fn reset(&mut self)
        ensures
            final(self).timer == (Timer { elapsed: 0, finished: false, ..old(self).timer }),
    {
        self.timer.reset();
    }
}


/// Starting health of the player.
pub const PLAYER_HEALTH: u32 = 5;

/// Speed of the player, in milli-units per tick.
pub const PLAYER_SPEED: i64 = 6000;

/// Hitbox radius of the player, in milli-units.
pub const PLAYER_RADIUS: i64 = 9000;

/// Period of the player's fire rate, in nanoseconds.
pub const PLAYER_FIRE_NANOS: u64 = 180_000_000;

/// Length of the invulnerability window, in nanoseconds.
pub const INVULN_NANOS: u64 = 600_000_000;

/// Angle of the player's shot, in degrees: straight up.
pub const PLAYER_SHOT_ANGLE: i64 = 90;

/// Speed of the player's shot, in milli-units per tick.
pub const PLAYER_SHOT_SPEED: i64 = 12_000;

/// Movement speed, in milli-units per tick.
#[derive(Clone, Copy, Debug, PartialEq, Eq, Structural)]
pub struct Speed(pub i64);

/// The keys held down this tick.
#[derive(Clone, Copy, Debug, PartialEq, Eq, Structural)]
pub struct Keys {
    pub left: bool,
    pub right: bool,
    pub up: bool,
    pub down: bool,
    /// Move at half speed.
    pub slow: bool,
    pub fire: bool,
}

/// The player as it enters: centred, a quarter of the window height below
/// the middle.
pub open spec fn player_spec(s: Settings) -> Body {
    Body {
        fire_rate: Some(FireRate::Regular(Timer::new_spec(PLAYER_FIRE_NANOS, true))),
        health: Some(Health { current: PLAYER_HEALTH }),
        hitbox: Some(Hitbox { radius: PLAYER_RADIUS }),
        invuln: Some(InvulnTimer { timer: Timer { elapsed: INVULN_NANOS, ..Timer::new_spec(INVULN_NANOS, false) } }),
        speed: Some(Speed(PLAYER_SPEED)),
        animation: Some(AnimationTimer { elapsed: None, timer: Timer::new_spec(FRAME_NANOS, true) }),
        frames: ENEMY_FRAMES,
        ..Body::bare(
            Kind::Player,
            Vec2 { x: 0, y: -(s.window.height / 4) as i64 },
            3,
            SpriteSize {
                width: scaled(50_000, s.scale.scale as int) as i64,
                height: scaled(43_000, s.scale.scale as int) as i64,
            },
        )
    }
}

/// The player entity, with full health.
pub fn spawn_player(settings: &Settings) -> (r: Body)
    requires
        settings.wf(),
    ensures
        r == player_spec(*settings),
        r.wf(),
{
    let size = SpriteSize::new(50_000, 43_000, settings.scale);
    let mut b = Body::new(Kind::Player, Vec2::new(0, -(settings.window.height / 4)), 3, size);
    b.fire_rate = Some(FireRate::from_seconds(PLAYER_FIRE_NANOS));
    b.health = Some(Health::new(PLAYER_HEALTH));
    b.hitbox = Some(Hitbox { radius: PLAYER_RADIUS });
    b.invuln = Some(InvulnTimer::new(INVULN_NANOS));
    b.speed = Some(Speed(PLAYER_SPEED));
    b.animation = Some(AnimationTimer::new(FRAME_NANOS));
    b.frames = ENEMY_FRAMES;
    b
}

/// The direction, in degrees, of a step of `dx` and `dy` (each -1, 0 or 1,
/// not both 0).
pub open spec fn heading(dx: int, dy: int) -> int {
    if dy == 0 {
        if dx > 0 { 0 } else { 180 }
    } else if dx == 0 {
        if dy > 0 { 90 } else { 270 }
    } else if dx > 0 {
        if dy > 0 { 45 } else { 315 }
    } else {
        if dy > 0 { 135 } else { 225 }
    }
}

/// The horizontal and vertical step that the keys ask for.
pub open spec fn key_axes(k: Keys) -> (int, int) {
    ((if k.right { 1int } else { 0 }) - (if k.left { 1int } else { 0 }),
     (if k.up { 1int } else { 0 }) - (if k.down { 1int } else { 0 }))
}

/// `speed`, halved while the slow key is held.
pub open spec fn effective_speed(k: Keys, speed: int) -> int {
    if k.slow { speed / 2 } else { speed }
}

/// The player's velocity: `speed` (half of it while slow) along the held
/// direction, none when no direction or opposite keys are held.
pub open spec fn velocity_spec(k: Keys, speed: int, c: Compass) -> Vec2 {
    let (dx, dy) = key_axes(k);
    let s = if k.slow { speed / 2 } else { speed };
    if dx == 0 && dy == 0 {
        Vec2 { x: 0, y: 0 }
    } else {
        c.polar_spec(heading(dx, dy), s)
    }
}

/// The velocity that the held keys give the player.
pub fn player_velocity(keys: Keys, speed: i64, compass: &Compass) -> (r: Vec2)
    requires
        compass.wf(),
        0 <= speed <= MAX_SPEED,
    ensures
        r == velocity_spec(keys, speed as int, *compass),
        r.wf(),
        r.x * r.x + r.y * r.y <= effective_speed(keys, speed as int) * effective_speed(keys, speed as int),
        key_axes(keys).0 == 0 ==> r.x == 0,
        key_axes(keys).1 == 0 ==> r.y == 0,
        key_axes(keys).1 == 0 ==> r.x == key_axes(keys).0 * effective_speed(keys, speed as int),
        key_axes(keys).0 == 0 ==> r.y == key_axes(keys).1 * effective_speed(keys, speed as int),
{
    let dx: i64 = (if keys.right { 1 } else { 0 }) - (if keys.left { 1 } else { 0 });
    let dy: i64 = (if keys.up { 1 } else { 0 }) - (if keys.down { 1 } else { 0 });
    let s = if keys.slow { speed / 2 } else { speed };
    if dx == 0 && dy == 0 {
        return Vec2::zero();
    }
    proof {
        let d = compass.dirs@;
        assert(milli_of(1000 * s) == s);
        assert(milli_of(-1000 * s) == -s);
        assert(milli_of(0 * s) == 0);
        assert(d[0] == Vec2 { x: 1000, y: 0 });
        assert(d[90] == Vec2 { x: 0, y: 1000 });
        assert(d[180] == Vec2 { x: -1000i64, y: 0 });
        assert(d[270] == Vec2 { x: 0, y: -1000i64 });
    }
    let angle: i64 = if dy == 0 {
        if dx > 0 { 0 } else { 180 }
    } else if dx == 0 {
        if dy > 0 { 90 } else { 270 }
    } else if dx > 0 {
        if dy > 0 { 45 } else { 315 }
    } else {
        if dy > 0 { 135 } else { 225 }
    };
    compass.polar(angle, s)
}

/// `b` after the player's move for `keys`.
pub open spec fn player_moved(b: Body, k: Keys, c: Compass) -> Body {
    match b.speed {
        Some(s) => if b.kind == Kind::Player {
            Body { position: b.position.plus_spec(velocity_spec(k, s.0 as int, c)), ..b }
        } else {
            b
        },
        None => b,
    }
}

/// `b` is a player that can fire.
pub open spec fn player_armed(b: Body) -> bool {
    b.kind == Kind::Player && b.fire_rate.is_some()
}

/// `b` after its fire rate has advanced by `delta`, if it is the player.
pub open spec fn player_ticked(b: Body, delta: u64) -> Body {
    if player_armed(b) {
        Body { fire_rate: Some(b.fire_rate.unwrap().ticked(delta)), ..b }
    } else {
        b
    }
}

/// The player's shot, with its sound, if the fire key is held and the rate
/// allows it (given draw `roll`).
pub open spec fn player_shot(e: Entity, k: Keys, s: Settings, roll: int) -> Seq<Command> {
    let b = e.body;
    if player_armed(b) && k.fire && b.fire_rate.unwrap().ready_spec(roll as u32) {
        seq![
            Command::Play(Sound::Fire),
            Command::Spawn(Bullet::Small.single(s, b.position, Vec2 { x: 0, y: 0 }, Vec2 { x: 0, y: 0 }, PLAYER_SHOT_ANGLE as int, PLAYER_SHOT_SPEED as int, 1, Faction::Player)),
        ]
    } else {
        Seq::empty()
    }
}

/// The player's shots over the entities of `es`, the `k`-th with draw
/// `rolls[k]`.
pub open spec fn player_shots(es: Seq<Entity>, k: Keys, s: Settings, rolls: Seq<int>) -> Seq<Command>
    decreases es.len(),
{
    if es.len() == 0 || rolls.len() != es.len() {
        Seq::empty()
    } else {
        player_shots(es.drop_last(), k, s, rolls.drop_last()) + player_shot(es.last(), k, s, rolls.last())
    }
}

/// The entities `es` after the player's move.
pub open spec fn players_moved(es: Seq<Entity>, k: Keys, c: Compass) -> Seq<Entity> {
    Seq::new(es.len(), |i: int| Entity { id: es[i].id, body: player_moved(es[i].body, k, c) })
}

/// The entities `es` after the player's fire rate has advanced.
pub open spec fn players_ticked(es: Seq<Entity>, delta: u64) -> Seq<Entity> {
    Seq::new(es.len(), |i: int| Entity { id: es[i].id, body: player_ticked(es[i].body, delta) })
}

impl World {
    /// Moves the player by the velocity its keys ask for.
    pub fn move_player(&mut self, keys: Keys, settings: &Settings)
        requires
            old(self).wf(),
            settings.wf(),
        ensures
            final(self).wf(),
            final(self).next_id == old(self).next_id,
            final(self).entities@.len() == old(self).entities@.len(),
            forall|i: int|
                0 <= i < old(self).entities@.len() ==> #[trigger] final(self).entities@[i] == (
                Entity {
                    id: old(self).entities@[i].id,
                    body: player_moved(old(self).entities@[i].body, keys, settings.compass),
                }),
            final(self).entities@ == players_moved(old(self).entities@, keys, settings.compass),
    {
        let ghost pre = self.entities@;
        let mut i: usize = 0;
        while i < self.entities.len()
            invariant
                pre == old(self).entities@,
                old(self).wf(),
                settings.wf(),
                self.next_id == old(self).next_id,
                self.entities@.len() == pre.len(),
                i <= pre.len(),
                forall|j: int|
                    0 <= j < i ==> #[trigger] self.entities@[j] == (Entity {
                        id: pre[j].id,
                        body: player_moved(pre[j].body, keys, settings.compass),
                    }),
                forall|j: int| 0 <= j < i ==> (#[trigger] self.entities@[j]).body.wf(),
                forall|j: int| i <= j < pre.len() ==> #[trigger] self.entities@[j] == pre[j],
            decreases pre.len() - i,
        {
            let e = self.entities[i];
            assert(pre[i as int].body.wf());
            let mut b = e.body;
            if let Some(s) = b.speed {
                if matches!(b.kind, Kind::Player) {
                    let v = player_velocity(keys, s.0, &settings.compass);
                    b.position = b.position.plus(v);
                }
            }
            self.entities.set(i, Entity { id: e.id, body: b });
            i = i + 1;
        }
        proof {
            assert forall|x: int| 0 <= x < self.entities@.len() implies #[trigger] self.entities@[x].id == pre[x].id by {}
            lemma_same_ids(pre, self.entities@, self.next_id);
            assert(self.entities@ =~= players_moved(pre, keys, settings.compass));
        }
    }

    /// Advances the player's fire rate, and fires a shot straight up while
    /// the fire key is held and the rate allows it.
    pub fn fire_player(&mut self, keys: Keys, settings: &Settings, delta: u64, commands: &mut Commands)
        requires
            old(self).wf(),
            settings.wf(),
        ensures
            final(self).wf(),
            final(self).next_id == old(self).next_id,
            final(self).entities@.len() == old(self).entities@.len(),
            forall|i: int|
                0 <= i < old(self).entities@.len() ==> #[trigger] final(self).entities@[i] == (
                Entity {
                    id: old(self).entities@[i].id,
                    body: player_ticked(old(self).entities@[i].body, delta),
                }),
            final(self).entities@ == players_ticked(old(self).entities@, delta),
            exists|rolls: Seq<int>|
                rolls.len() == old(self).entities@.len() && (forall|k: int|
                    0 <= k < rolls.len() ==> 0 <= #[trigger] rolls[k] < PPM)
                    && final(commands).queue@ == old(commands).queue@ + player_shots(
                    final(self).entities@,
                    keys,
                    *settings,
                    rolls,
                ),
            spawns_wf(old(commands).queue@) ==> spawns_wf(final(commands).queue@),
    {
        let ghost pre = self.entities@;
        let ghost mut rolls: Seq<int> = Seq::empty();
        let mut i: usize = 0;
        while i < self.entities.len()
            invariant
                pre == old(self).entities@,
                old(self).wf(),
                settings.wf(),
                self.next_id == old(self).next_id,
                self.entities@.len() == pre.len(),
                i <= pre.len(),
                rolls.len() == i,
                forall|k: int| 0 <= k < rolls.len() ==> 0 <= #[trigger] rolls[k] < PPM,
                forall|j: int|
                    0 <= j < i ==> #[trigger] self.entities@[j] == (Entity {
                        id: pre[j].id,
                        body: player_ticked(pre[j].body, delta),
                    }),
                forall|j: int| i <= j < pre.len() ==> #[trigger] self.entities@[j] == pre[j],
                commands.queue@ == old(commands).queue@ + player_shots(self.entities@.take(i as int), keys, *settings, rolls),
                spawns_wf(old(commands).queue@) ==> spawns_wf(commands.queue@),
            decreases pre.len() - i,
        {
            let e = self.entities[i];
            assert(pre[i as int].body.wf());
            let mut b = e.body;
            let mut roll: u32 = 0;
            let ghost before = commands.queue@;
            if matches!(b.kind, Kind::Player) && b.fire_rate.is_some() {
                let mut rate = b.fire_rate.unwrap();
                rate.tick(delta);
                b.fire_rate = Some(rate);
                if let FireRate::Random(_) = rate {
                    roll = random_range(0, PPM as u64) as u32;
                }
                if keys.fire && rate.ready(roll) {
                    commands.play(Sound::Fire);
                    let zero = Vec2::zero();
                    commands.spawn(Bullet::Small.spawn_single(settings, b.position, zero, zero, PLAYER_SHOT_ANGLE, PLAYER_SHOT_SPEED, 1, Faction::Player));
                }
            }
            let ne = Entity { id: e.id, body: b };
            let ghost prev = self.entities@;
            self.entities.set(i, ne);
            proof {
                assert(self.entities@.take(i as int) =~= prev.take(i as int));
                let t = self.entities@.take(i + 1);
                assert(t.drop_last() =~= self.entities@.take(i as int));
                assert(t.last() == ne);
                let nr = rolls.push(roll as int);
                assert(nr.drop_last() == rolls);
                rolls = nr;
                assert(commands.queue@ == before + player_shot(ne, keys, *settings, roll as int));
            }
            i = i + 1;
        }
        assert(self.entities@.take(pre.len() as int) == self.entities@);
        proof {
            assert forall|x: int| 0 <= x < self.entities@.len() implies #[trigger] self.entities@[x].id == pre[x].id by {}
            assert forall|x: int| 0 <= x < self.entities@.len() implies (#[trigger] self.entities@[x]).body.wf() by {
                assert(pre[x].body.wf());
            }
            lemma_same_ids(pre, self.entities@, self.next_id);
            assert(self.entities@ =~= players_ticked(pre, delta));
        }
    }
}

/// Whether heart `i` of the health bar shows full, for a player with
/// `health`.
pub fn heart_full(i: usize, health: u32) -> (r: bool)
    ensures
        r == (i < health),
{
    (i as u64) < (health as u64)
}

} // verus!
