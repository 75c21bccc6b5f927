//! Per-entity rules and the systems that apply them to the whole world.

use vstd::prelude::*;
use crate::animation::{explosion_spec, next_frame, spawn_explosion, AnimationTimer};
use crate::body::{Body, Faction, Kind, Sound};
use crate::bullet::{bounce, bounce_spec, Bullet, FloorBehavior, WallBehavior};
use crate::geometry::{
    clamp_sym, clamp_symmetric, inner_bound, outer_bound, Vec2, WindowSize, };
use crate::world::{spawns_wf, Command, Commands, Entity, Settings, World};

verus! {

/// Extra distance beyond the window edge before an entity is removed, in
/// milli-units.
pub const MARGIN: i64 = 12_000;

/// A rule that changes each entity on its own.
#[derive(Clone, Copy, Debug, PartialEq, Eq, Structural)]
pub enum Step {
    /// Acceleration is added to velocity.
    Accelerate,
    /// Velocity is added to position, for every entity but stars.
    Move,
    /// Velocity is added to position, for stars.
    MoveStars,
    /// The player is held inside the window.
    BoundPlayer,
    /// Bouncing projectiles turn at the sides of the window.
    Bounce,
    /// Stars that leave the bottom edge reappear at the top.
    Wrap,
    /// Animation timers advance, and the frame with them.
    Animate,
}

/// The entity `b` after `step`, in a window of size `w`, `delta`
/// nanoseconds into the frame.
#[verifier::opaque]
pub open spec fn step_spec(b: Body, step: Step, w: WindowSize, delta: u64) -> Body {
    match step {
        Step::Accelerate => match (b.velocity, b.acceleration) {
            (Some(v), Some(a)) => Body { velocity: Some(v.plus_spec(a)), ..b },
            _ => b,
        },
        Step::Move => match b.velocity {
            Some(v) => if !(b.kind is Star) {
                Body { position: b.position.plus_spec(v), ..b }
            } else {
                b
            },
            None => b,
        },
        Step::MoveStars => match b.velocity {
            Some(v) => if b.kind is Star {
                Body { position: b.position.plus_spec(v), ..b }
            } else {
                b
            },
            None => b,
        },
        Step::BoundPlayer => if b.kind == Kind::Player {
            let bx = (w.width - b.size.width) / 2;
            let by = (w.height - b.size.height) / 2;
            Body {
                position: Vec2 {
                    x: clamp_sym(b.position.x as int, bx) as i64,
                    y: clamp_sym(b.position.y as int, by) as i64,
                },
                ..b
            }
        } else {
            b
        },
        Step::Bounce => match b.velocity {
            Some(v) => if b.kind is Bullet && b.wall == WallBehavior::Bounce {
                let r = bounce_spec(b.position.x as int, v.x as int, (w.width - b.size.width) / 2);
                Body {
                    position: Vec2 { x: r.0 as i64, ..b.position },
                    velocity: Some(Vec2 { x: r.1 as i64, ..v }),
                    ..b
                }
            } else {
                b
            },
            None => b,
        },
        Step::Wrap => {
            let h = (w.height + b.size.height) / 2;
            if b.kind is Star && b.position.y < -h {
                Body { position: Vec2 { y: h as i64, ..b.position }, ..b }
            } else {
                b
            }
        },
        Step::Animate => match b.animation {
            Some(a) => {
                let t = a.timer.ticked(delta);
                Body {
                    animation: Some(AnimationTimer { timer: t, elapsed: match a.elapsed {
                        Some(s) => Some(crate::timer::Stopwatch { elapsed: crate::timer::sat_add(s.elapsed, delta) }),
                        None => None,
                    } }),
                    frame: if t.finished { ((b.frame + 1) % (b.frames as int)) as u32 } else { b.frame },
                    ..b
                }
            },
            None => b,
        },
    }
}

/// The entities `es` after `step`, identifiers unchanged.
pub open spec fn stepped(es: Seq<Entity>, step: Step, w: WindowSize, delta: u64) -> Seq<Entity> {
    Seq::new(es.len(), |i: int| Entity { id: es[i].id, body: step_spec(es[i].body, step, w, delta) })
}

/// Applies `step` to one entity.
pub fn step_body(b: Body, step: Step, w: WindowSize, delta: u64) -> (r: Body)
    requires
        b.wf(),
        w.wf(),
    ensures
        r == step_spec(b, step, w, delta),
        r.wf(),
{
    reveal(step_spec);
    let mut b = b;
    match step {
        Step::Accelerate => {
            match (b.velocity, b.acceleration) {
                (Some(v), Some(a)) => {
                    b.velocity = Some(v.plus(a));
                },
                _ => {},
            }
        },
        Step::Move => {
            if let Some(v) = b.velocity {
                if !matches!(b.kind, Kind::Star(_)) {
                    b.position = b.position.plus(v);
                }
            }
        },
        Step::MoveStars => {
            if let Some(v) = b.velocity {
                if matches!(b.kind, Kind::Star(_)) {
                    b.position = b.position.plus(v);
                }
            }
        },
        Step::BoundPlayer => {
            if b.kind == Kind::Player {
                let bx = inner_bound(w.width, b.size.width);
                let by = inner_bound(w.height, b.size.height);
                b.position = Vec2::new(
                    clamp_symmetric(b.position.x, bx),
                    clamp_symmetric(b.position.y, by),
                );
            }
        },
        Step::Bounce => {
            if let Some(v) = b.velocity {
                if matches!(b.kind, Kind::Bullet(_)) && b.wall == WallBehavior::Bounce {
                    let bx = inner_bound(w.width, b.size.width);
                    let r = bounce(b.position.x, v.x, bx);
                    b.position = Vec2::new(r.0, b.position.y);
                    b.velocity = Some(Vec2::new(r.1, v.y));
                }
            }
        },
        Step::Wrap => {
            let h = outer_bound(w.height, b.size.height);
            if matches!(b.kind, Kind::Star(_)) && b.position.y < -h {
                b.position = Vec2::new(b.position.x, h);
            }
        },
        Step::Animate => {
            if let Some(a) = b.animation {
                let mut a = a;
                a.tick(delta);
                if a.finished() {
                    b.frame = next_frame(b.frame, b.frames);
                }
                b.animation = Some(a);
            }
        },
    }
    b
}

/// A rule that removes entities, and what it requests in their place.
#[derive(Clone, Copy, Debug, PartialEq, Eq, Structural)]
pub enum Rule {
    /// Entities marked for it leave once wholly outside the window.
    Outside,
    /// Timed effects leave once their full duration has passed.
    Finished,
    /// Exploding projectiles burst on reaching the bottom edge.
    Floor,
    /// Everything but the starfield leaves when a match restarts.
    Transient,
}

/// `b` lies beyond the window, margin included, on either axis.
pub open spec fn outside_spec(b: Body, w: WindowSize) -> bool {
    let bx = (w.width + b.size.width) / 2 + MARGIN;
    let by = (w.height + b.size.height) / 2 + MARGIN;
    b.despawn_outside && (b.position.x > bx || b.position.x < -bx || b.position.y > by
        || b.position.y < -by)
}

/// `b` is a timed effect whose stopwatch has reached its limit.
pub open spec fn finished_spec(b: Body) -> bool {
    match (b.animation, b.time_limit) {
        (Some(a), Some(l)) => a.reached(l.duration),
        _ => false,
    }
}

/// `b` is an exploding projectile below the bottom edge.
pub open spec fn floor_spec(b: Body, w: WindowSize) -> bool {
    b.kind is Bullet && b.floor == FloorBehavior::Explode && b.position.y < -((w.height
        - b.size.height) / 2)
}

/// `b` is transient: animated, a projectile, an enemy or the player.
pub open spec fn transient_spec(b: Body) -> bool {
    b.animation.is_some() || b.kind is Bullet || b.kind is Enemy || b.kind == Kind::Player
}

pub open spec fn rule_applies(b: Body, rule: Rule, w: WindowSize) -> bool {
    match rule {
        Rule::Outside => outside_spec(b, w),
        Rule::Finished => finished_spec(b),
        Rule::Floor => floor_spec(b, w),
        Rule::Transient => transient_spec(b),
    }
}

/// Angle of the bomb burst's middle projectile, in degrees.
pub const BURST_ANGLE: i64 = 90;

/// Speed of the bomb burst's projectiles, in milli-units per tick.
pub const BURST_SPEED: i64 = 8000;

/// The three projectiles of a bomb burst at `p`.
pub open spec fn burst_spec(s: Settings, p: Vec2) -> Seq<Command> {
    seq![
        Command::Spawn(Bullet::Basic.single(s, p, Vec2 { x: 0, y: 0 }, Vec2 { x: 0, y: 0 }, BURST_ANGLE - 45, BURST_SPEED as int, 4, Faction::Enemy)),
        Command::Spawn(Bullet::Basic.single(s, p, Vec2 { x: 0, y: 0 }, Vec2 { x: 0, y: 0 }, BURST_ANGLE as int, BURST_SPEED as int, 4, Faction::Enemy)),
        Command::Spawn(Bullet::Basic.single(s, p, Vec2 { x: 0, y: 0 }, Vec2 { x: 0, y: 0 }, BURST_ANGLE + 45, BURST_SPEED as int, 4, Faction::Enemy)),
    ]
}

/// What `rule` requests for entity `e`.
pub open spec fn rule_cmds(e: Entity, rule: Rule, s: Settings) -> Seq<Command> {
    if !rule_applies(e.body, rule, s.window) {
        Seq::empty()
    } else if rule == Rule::Floor {
        seq![
            Command::Despawn(e.id),
            Command::Spawn(explosion_spec(s, e.body.position, e.body.z)),
            Command::Play(Sound::Explosion),
        ] + burst_spec(s, e.body.position)
    } else {
        seq![Command::Despawn(e.id)]
    }
}

/// What `rule` requests for the entities of `es`, in order.
pub open spec fn rule_all(es: Seq<Entity>, rule: Rule, s: Settings) -> Seq<Command>
    decreases es.len(),
{
    if es.len() == 0 {
        Seq::empty()
    } else {
        rule_all(es.drop_last(), rule, s) + rule_cmds(es.last(), rule, s)
    }
}

/// Whether `rule` applies to `b`.
pub fn applies(b: &Body, rule: Rule, w: WindowSize) -> (r: bool)
    requires
        b.wf(),
        w.wf(),
    ensures
        r == rule_applies(*b, rule, w),
{
    match rule {
        Rule::Outside => {
            let bx = outer_bound(w.width, b.size.width) + MARGIN;
            let by = outer_bound(w.height, b.size.height) + MARGIN;
            b.despawn_outside && (b.position.x > bx || b.position.x < -bx || b.position.y > by
                || b.position.y < -by)
        },
        Rule::Finished => {
            match (&b.animation, &b.time_limit) {
                (Some(a), Some(l)) => crate::animation::despawn_due(a, l),
                _ => false,
            }
        },
        Rule::Floor => {
            let h = inner_bound(w.height, b.size.height);
            matches!(b.kind, Kind::Bullet(_)) && b.floor == FloorBehavior::Explode && b.position.y < -h
        },
        Rule::Transient => {
            b.animation.is_some() || matches!(b.kind, Kind::Bullet(_)) || matches!(b.kind, Kind::Enemy(_))
                || matches!(b.kind, Kind::Player)
        },
    }
}

impl World {
    /// Applies `step` to every entity, in place.
    pub fn map_bodies(&mut self, step: Step, w: WindowSize, delta: u64)
        requires
            old(self).wf(),
            w.wf(),
        ensures
            final(self).wf(),
            final(self).next_id == old(self).next_id,
            final(self).entities@.len() == old(self).entities@.len(),
            forall|i: int|
                0 <= i < old(self).entities@.len() ==> #[trigger] final(self).entities@[i] == (
                Entity {
                    id: old(self).entities@[i].id,
                    body: step_spec(old(self).entities@[i].body, step, w, delta),
                }),
            final(self).entities@ == stepped(old(self).entities@, step, w, delta),
    {
        let ghost pre = self.entities@;
        let mut i: usize = 0;
        while i < self.entities.len()
            invariant
                self.entities@.len() == pre.len(),
                self.next_id == old(self).next_id,
                pre == old(self).entities@,
                old(self).wf(),
                w.wf(),
                i <= pre.len(),
                forall|j: int|
                    0 <= j < i ==> #[trigger] self.entities@[j] == (Entity {
                        id: pre[j].id,
                        body: step_spec(pre[j].body, step, w, delta),
                    }),
                forall|j: int| i <= j < pre.len() ==> #[trigger] self.entities@[j] == pre[j],
                forall|j: int| 0 <= j < i ==> (#[trigger] self.entities@[j]).body.wf(),
            decreases pre.len() - i,
        {
            let e = self.entities[i];
            assert(e.body.wf());
            let b = step_body(e.body, step, w, delta);
            self.entities.set(i, Entity { id: e.id, body: b });
            i = i + 1;
        }
        proof {
            assert forall|x: int, y: int|
                0 <= x < y < self.entities@.len() implies self.entities@[x].id
                < self.entities@[y].id by {
                assert(self.entities@[x].id == pre[x].id);
                assert(self.entities@[y].id == pre[y].id);
            }
            assert forall|x: int| 0 <= x < self.entities@.len() implies #[trigger] self.entities@[x].id
                < self.next_id by {
                assert(self.entities@[x].id == pre[x].id);
            }
            assert(self.entities@ =~= stepped(pre, step, w, delta));
        }
    }

    /// Queues what `rule` requests for every entity it applies to.
    pub fn collect(&self, rule: Rule, settings: &Settings, commands: &mut Commands)
        requires
            self.wf(),
            settings.wf(),
        ensures
            final(commands).queue@ == old(commands).queue@ + rule_all(self.entities@, rule, *settings),
            spawns_wf(old(commands).queue@) ==> spawns_wf(final(commands).queue@),
    {
        let ghost pre = self.entities@;
        let mut i: usize = 0;
        while i < self.entities.len()
            invariant
                self.wf(),
                settings.wf(),
                pre == self.entities@,
                i <= pre.len(),
                commands.queue@ == old(commands).queue@ + rule_all(pre.take(i as int), rule, *settings),
                spawns_wf(old(commands).queue@) ==> spawns_wf(commands.queue@),
            decreases pre.len() - i,
        {
            let e = self.entities[i];
            assert(pre.take(i + 1).drop_last() == pre.take(i as int));
            assert(pre.take(i + 1).last() == e);
            assert(pre[i as int].body.wf());
            let ghost before = commands.queue@;
            if applies(&e.body, rule, settings.window) {
                commands.despawn(e.id);
                if rule == Rule::Floor {
                    let ex = spawn_explosion(settings, e.body.position, e.body.z);
                    commands.spawn(ex);
                    commands.play(Sound::Explosion);
                    let zero = Vec2::zero();
                    let p = e.body.position;
                    commands.spawn(Bullet::Basic.spawn_single(settings, p, zero, zero, BURST_ANGLE - 45, BURST_SPEED, 4, Faction::Enemy));
                    commands.spawn(Bullet::Basic.spawn_single(settings, p, zero, zero, BURST_ANGLE, BURST_SPEED, 4, Faction::Enemy));
                    commands.spawn(Bullet::Basic.spawn_single(settings, p, zero, zero, BURST_ANGLE + 45, BURST_SPEED, 4, Faction::Enemy));
                }
            }
            proof {
                assert(commands.queue@ == old(commands).queue@ + rule_all(pre.take(i as int), rule, *settings) + rule_cmds(e, rule, *settings));
            }
            i = i + 1;
        }
        assert(pre.take(pre.len() as int) == pre);
    }
}

} // verus!
