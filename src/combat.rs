//! Projectile hits, damage and the death sequence.

use vstd::prelude::*;
use crate::animation::{explosion_spec, spawn_explosion};
use crate::body::{Body, Faction, Kind, Sound};
use crate::bullet::Bullet;
use crate::enemy::{DeathBehavior, Health};
use crate::geometry::{circles_overlap, overlapping, Vec2};
use crate::random::random_range;
use crate::world::{spawns_wf, Command, Commands, Entity, Settings, World};

verus! {

/// The side a damageable entity belongs to.
pub open spec fn side(t: Body) -> Faction {
    if t.kind == Kind::Player {
        Faction::Player
    } else {
        Faction::Enemy
    }
}

/// `t` can be hit: a player or an enemy with health and a hitbox.
pub open spec fn is_target(t: Body) -> bool {
    (t.kind == Kind::Player || t.kind is Enemy) && t.health.is_some() && t.hitbox.is_some()
}

/// Projectile `p` hits target `t`: it belongs to the other side and their
/// circles overlap.
pub open spec fn hits(p: Body, t: Body) -> bool {
    &&& is_target(t)
    &&& p.kind is Bullet
    &&& p.damage.is_some()
    &&& p.hitbox.is_some()
    &&& p.faction matches Some(f) && f != side(t)
    &&& overlapping(t.position, t.hitbox.unwrap().radius as int, p.position, p.hitbox.unwrap().radius as int)
}

/// The removals of the projectiles of `ps` that hit `t`, in order.
pub open spec fn hit_cmds(t: Body, ps: Seq<Entity>) -> Seq<Command>
    decreases ps.len(),
{
    if ps.len() == 0 {
        Seq::empty()
    } else if hits(ps.last().body, t) {
        hit_cmds(t, ps.drop_last()).push(Command::Despawn(ps.last().id))
    } else {
        hit_cmds(t, ps.drop_last())
    }
}

/// Total damage that the projectiles of `ps` deal to `t`.
pub open spec fn hit_damage(t: Body, ps: Seq<Entity>) -> int
    decreases ps.len(),
{
    if ps.len() == 0 {
        0
    } else if hits(ps.last().body, t) {
        hit_damage(t, ps.drop_last()) + ps.last().body.damage.unwrap().0
    } else {
        hit_damage(t, ps.drop_last())
    }
}

/// The removals requested for every target of `ts` against the projectiles
/// of `ps`: one per hitting pair.
pub open spec fn collide_cmds(ts: Seq<Entity>, ps: Seq<Entity>) -> Seq<Command>
    decreases ts.len(),
{
    if ts.len() == 0 {
        Seq::empty()
    } else {
        collide_cmds(ts.drop_last(), ps) + hit_cmds(ts.last().body, ps)
    }
}

/// Target `t` after the projectiles of `ps` have hit it: health falls by the
/// total damage, stopping at zero, and a hit marks health as changed.
pub open spec fn damaged(t: Body, ps: Seq<Entity>) -> Body {
    if is_target(t) && hit_damage(t, ps) > 0 {
        let h = t.health.unwrap().current as int;
        let d = hit_damage(t, ps);
        Body {
            health: Some(Health { current: (if d >= h { 0 } else { h - d }) as u32 }),
            health_changed: true,
            ..t
        }
    } else {
        t
    }
}

/// Every entity of `es` after the projectiles of `es` have hit it.
pub open spec fn all_damaged(es: Seq<Entity>) -> Seq<Entity> {
    Seq::new(es.len(), |i: int| Entity { id: es[i].id, body: damaged(es[i].body, es) })
}

/// The entities `es` with their health change marks cleared.
pub open spec fn marks_cleared(es: Seq<Entity>) -> Seq<Entity> {
    Seq::new(es.len(), |i: int| Entity { id: es[i].id, body: Body { health_changed: false, ..es[i].body } })
}

/// Whether projectile `p` hits target `t`.
pub fn projectile_hits(p: &Body, t: &Body) -> (r: bool)
    requires
        p.wf(),
        t.wf(),
    ensures
        r == hits(*p, *t),
{
    let target = (matches!(t.kind, Kind::Player) || matches!(t.kind, Kind::Enemy(_)))
        && t.health.is_some() && t.hitbox.is_some();
    if !target || !matches!(p.kind, Kind::Bullet(_)) || p.damage.is_none() {
        return false;
    }
    let own = if matches!(t.kind, Kind::Player) { Faction::Player } else { Faction::Enemy };
    match (p.faction, p.hitbox, t.hitbox) {
        (Some(f), Some(rp), Some(rt)) => f != own && circles_overlap(t.position, rt.radius, p.position, rp.radius),
        _ => false,
    }
}

impl World {
    /// A copy of the entities.
    pub fn snapshot(&self) -> (r: Vec<Entity>)
        ensures
            r@ == self.entities@,
    {
        let mut r: Vec<Entity> = Vec::new();
        let mut i: usize = 0;
        while i < self.entities.len()
            invariant
                i <= self.entities@.len(),
                r@ == self.entities@.take(i as int),
            decreases self.entities@.len() - i,
        {
            r.push(self.entities[i]);
            assert(self.entities@.take(i + 1) == self.entities@.take(i as int).push(self.entities@[i as int]));
            i = i + 1;
        }
        assert(self.entities@.take(self.entities@.len() as int) == self.entities@);
        r
    }

    /// Resolves every hit between a projectile and a target of the other
    /// side: each hitting pair removes the projectile once and subtracts its
    /// damage from the target, so damage accumulates within the tick.
    pub fn collide(&mut self, commands: &mut Commands)
        requires
            old(self).wf(),
        ensures
            final(self).wf(),
            final(self).next_id == old(self).next_id,
            final(self).entities@.len() == old(self).entities@.len(),
            forall|i: int|
                0 <= i < old(self).entities@.len() ==> #[trigger] final(self).entities@[i] == (
                Entity {
                    id: old(self).entities@[i].id,
                    body: damaged(old(self).entities@[i].body, old(self).entities@),
                }),
            final(self).entities@ == all_damaged(old(self).entities@),
            final(commands).queue@ == old(commands).queue@ + collide_cmds(
                old(self).entities@,
                old(self).entities@,
            ),
            spawns_wf(old(commands).queue@) ==> spawns_wf(final(commands).queue@),
    {
        let ghost pre = self.entities@;
        let ps = self.snapshot();
        let mut i: usize = 0;
        while i < self.entities.len()
            invariant
                pre == old(self).entities@,
                ps@ == pre,
                old(self).wf(),
                self.next_id == old(self).next_id,
                self.entities@.len() == pre.len(),
                i <= pre.len(),
                forall|j: int|
                    0 <= j < i ==> #[trigger] self.entities@[j] == (Entity {
                        id: pre[j].id,
                        body: damaged(pre[j].body, pre),
                    }),
                forall|j: int| i <= j < pre.len() ==> #[trigger] self.entities@[j] == pre[j],
                commands.queue@ == old(commands).queue@ + collide_cmds(pre.take(i as int), pre),
                spawns_wf(old(commands).queue@) ==> spawns_wf(commands.queue@),
            decreases pre.len() - i,
        {
            let t = self.entities[i];
            assert(t.body.wf());
            let ghost before = commands.queue@;
            let mut health: u32 = match t.body.health {
                Some(h) => h.current,
                None => 0,
            };
            let mut any = false;
            let mut j: usize = 0;
            while j < ps.len()
                invariant
                    ps@ == pre,
                    pre == old(self).entities@,
                    old(self).wf(),
                    t.body.wf(),
                    t == pre[i as int],
                    i < pre.len(),
                    j <= pre.len(),
                    commands.queue@ == before + hit_cmds(t.body, pre.take(j as int)),
                    spawns_wf(old(commands).queue@) ==> spawns_wf(commands.queue@),
                    any <==> hit_damage(t.body, pre.take(j as int)) > 0,
                    is_target(t.body) ==> health == (if hit_damage(t.body, pre.take(j as int))
                        >= t.body.health.unwrap().current {
                        0
                    } else {
                        t.body.health.unwrap().current - hit_damage(t.body, pre.take(j as int))
                    }),
                    hit_damage(t.body, pre.take(j as int)) >= 0,
                decreases pre.len() - j,
            {
                let p = ps[j];
                assert(pre.take(j + 1).drop_last() == pre.take(j as int));
                assert(pre.take(j + 1).last() == p);
                assert(pre[j as int].body.wf());
                if projectile_hits(&p.body, &t.body) {
                    commands.despawn(p.id);
                    let d = p.body.damage.unwrap().0;
                    health = health.saturating_sub(d);
                    if d > 0 {
                        any = true;
                    }
                }
                j = j + 1;
            }
            assert(pre.take(pre.len() as int) == pre);
            assert(pre.take(i + 1).drop_last() == pre.take(i as int));
            assert(pre.take(i + 1).last() == t);
            if any && t.body.health.is_some() && t.body.hitbox.is_some() && (matches!(t.body.kind, Kind::Player) || matches!(t.body.kind, Kind::Enemy(_))) {
                let mut b = t.body;
                b.health = Some(Health { current: health });
                b.health_changed = true;
                self.entities.set(i, Entity { id: t.id, body: b });
            } else {
                proof {
                    if is_target(t.body) {
                        assert(hit_damage(t.body, pre) == 0);
                    } else {
                        assert(hit_cmds(t.body, pre.take(0)) == Seq::<Command>::empty());
                    }
                }
            }
            i = i + 1;
        }
        assert(pre.take(pre.len() as int) == pre);
        proof {
            assert forall|x: int, y: int|
                0 <= x < y < self.entities@.len() implies self.entities@[x].id
                < self.entities@[y].id by {
                assert(self.entities@[x].id == pre[x].id);
                assert(self.entities@[y].id == pre[y].id);
            }
            assert forall|x: int| 0 <= x < self.entities@.len() implies #[trigger] self.entities@[x].id
                < self.next_id by {
                assert(self.entities@[x].id == pre[x].id);
            }
            assert forall|x: int| 0 <= x < self.entities@.len() implies (#[trigger] self.entities@[x]).body.wf() by {
                assert(pre[x].body.wf());
            }
            assert(self.entities@ =~= all_damaged(pre));
        }
    }
}


/// Number of projectiles in a death burst.
pub const STAR_POINTS: i64 = 6;

/// Degrees between the projectiles of a death burst.
pub const STAR_STEP: i64 = 60;

/// `b` has just reached zero health: health changed and is now zero.
pub open spec fn dies(b: Body) -> bool {
    &&& b.health_changed
    &&& b.health matches Some(h) && h.current == 0
    &&& (b.kind == Kind::Player || b.kind is Enemy)
}

/// The ring of projectiles that a star-bursting enemy leaves at `p`, the
/// first at `base` degrees and each next one 60 degrees further.
pub open spec fn star_burst(s: Settings, p: Vec2, base: int) -> Seq<Command> {
    Seq::new(
        STAR_POINTS as nat,
        |k: int|
            Command::Spawn(
                Bullet::Basic.single(s, p, Vec2 { x: 0, y: 0 }, Vec2 { x: 0, y: 0 }, base + STAR_STEP * k, 8000, 4, Faction::Enemy),
            ),
    )
}

/// The death sequence of `e` with burst angle `base`: removal, an explosion,
/// its sound, and a burst for a star-bursting enemy. Nothing for an entity
/// that does not die.
pub open spec fn death_cmds(e: Entity, s: Settings, base: int) -> Seq<Command> {
    if !dies(e.body) {
        Seq::empty()
    } else {
        seq![
            Command::Despawn(e.id),
            Command::Spawn(explosion_spec(s, e.body.position, e.body.z)),
            Command::Play(Sound::Explosion),
        ] + if e.body.kind is Enemy && e.body.death == Some(DeathBehavior::Star) {
            star_burst(s, e.body.position, base)
        } else {
            Seq::empty()
        }
    }
}

/// The death sequences of the entities of `es`, the `k`-th with burst angle
/// `bases[k]`.
pub open spec fn deaths_all(es: Seq<Entity>, s: Settings, bases: Seq<int>) -> Seq<Command>
    decreases es.len(),
{
    if es.len() == 0 || bases.len() != es.len() {
        Seq::empty()
    } else {
        deaths_all(es.drop_last(), s, bases.drop_last()) + death_cmds(es.last(), s, bases.last())
    }
}

/// Queues the death sequence of `e`, with burst angle `base`.
pub fn death_commands(e: &Entity, settings: &Settings, base: i64, commands: &mut Commands)
    requires
        e.body.wf(),
        settings.wf(),
        0 <= base < 360,
    ensures
        final(commands).queue@ == old(commands).queue@ + death_cmds(*e, *settings, base as int),
        spawns_wf(old(commands).queue@) ==> spawns_wf(final(commands).queue@),
{
    let b = &e.body;
    let dying = b.health_changed && (matches!(b.kind, Kind::Player) || matches!(b.kind, Kind::Enemy(_)))
        && match b.health {
        Some(h) => h.current == 0,
        None => false,
    };
    if !dying {
        return;
    }
    let ghost before = old(commands).queue@;
    commands.despawn(e.id);
    commands.spawn(spawn_explosion(settings, b.position, b.z));
    commands.play(Sound::Explosion);
    let ghost head = commands.queue@;
    if matches!(b.kind, Kind::Enemy(_)) && b.death == Some(DeathBehavior::Star) {
        let zero = Vec2::zero();
        let mut k: i64 = 0;
        while k < STAR_POINTS
            invariant
                settings.wf(),
                e.body.wf(),
                zero == (Vec2 { x: 0, y: 0 }),
                0 <= base < 360,
                0 <= k <= STAR_POINTS,
                commands.queue@ == head + star_burst(*settings, e.body.position, base as int).take(k as int),
                spawns_wf(old(commands).queue@) ==> spawns_wf(commands.queue@),
            decreases STAR_POINTS - k,
        {
            let p = Bullet::Basic.spawn_single(settings, e.body.position, zero, zero, base + STAR_STEP * k, 8000, 4, Faction::Enemy);
            commands.spawn(p);
            proof {
                let full = star_burst(*settings, e.body.position, base as int);
                assert(full.take(k + 1) == full.take(k as int).push(full[k as int]));
            }
            k = k + 1;
        }
        assert(star_burst(*settings, e.body.position, base as int).take(STAR_POINTS as int) == star_burst(*settings, e.body.position, base as int));
    } else {
        assert(commands.queue@ == head + Seq::<Command>::empty());
    }
}


/// Some entity of `es` is a player that dies.
pub open spec fn player_dies(es: Seq<Entity>) -> bool {
    exists|i: int| 0 <= i < es.len() && dies(#[trigger] es[i].body) && es[i].body.kind == Kind::Player
}

impl World {
    /// Runs the death sequence of every entity whose health changed to
    /// zero, and clears every health change mark, so that each death is
    /// handled once. Returns whether the player died.
    pub fn explode_dying(&mut self, settings: &Settings, commands: &mut Commands) -> (r: bool)
        requires
            old(self).wf(),
            settings.wf(),
        ensures
            final(self).wf(),
            final(self).next_id == old(self).next_id,
            final(self).entities@.len() == old(self).entities@.len(),
            forall|i: int|
                0 <= i < old(self).entities@.len() ==> #[trigger] final(self).entities@[i] == (
                Entity {
                    id: old(self).entities@[i].id,
                    body: Body { health_changed: false, ..old(self).entities@[i].body },
                }),
            final(self).entities@ == marks_cleared(old(self).entities@),
            exists|bases: Seq<int>|
                bases.len() == old(self).entities@.len() && (forall|k: int|
                    0 <= k < bases.len() ==> 0 <= #[trigger] bases[k] < STAR_STEP)
                    && final(commands).queue@ == old(commands).queue@ + deaths_all(
                    old(self).entities@,
                    *settings,
                    bases,
                ),
            r == player_dies(old(self).entities@),
            spawns_wf(old(commands).queue@) ==> spawns_wf(final(commands).queue@),
    {
        let ghost pre = self.entities@;
        let ghost mut bases: Seq<int> = Seq::empty();
        let mut died = false;
        let mut i: usize = 0;
        while i < self.entities.len()
            invariant
                pre == old(self).entities@,
                old(self).wf(),
                settings.wf(),
                self.next_id == old(self).next_id,
                self.entities@.len() == pre.len(),
                i <= pre.len(),
                bases.len() == i,
                forall|k: int| 0 <= k < bases.len() ==> 0 <= #[trigger] bases[k] < STAR_STEP,
                forall|j: int|
                    0 <= j < i ==> #[trigger] self.entities@[j] == (Entity {
                        id: pre[j].id,
                        body: Body { health_changed: false, ..pre[j].body },
                    }),
                forall|j: int| i <= j < pre.len() ==> #[trigger] self.entities@[j] == pre[j],
                commands.queue@ == old(commands).queue@ + deaths_all(pre.take(i as int), *settings, bases),
                died == player_dies(pre.take(i as int)),
                spawns_wf(old(commands).queue@) ==> spawns_wf(commands.queue@),
            decreases pre.len() - i,
        {
            let e = self.entities[i];
            assert(pre[i as int].body.wf());
            let star = matches!(e.body.kind, Kind::Enemy(_)) && e.body.death == Some(DeathBehavior::Star)
                && e.body.health_changed && match e.body.health {
                Some(h) => h.current == 0,
                None => false,
            };
            let base: i64 = if star {
                random_range(0, STAR_STEP as u64) as i64
            } else {
                0
            };
            death_commands(&e, settings, base, commands);
            if e.body.health_changed && matches!(e.body.kind, Kind::Player) && match e.body.health {
                Some(h) => h.current == 0,
                None => false,
            } {
                died = true;
            }
            proof {
                let t = pre.take(i + 1);
                assert(t.drop_last() == pre.take(i as int));
                assert(t.last() == e);
                let nb = bases.push(base as int);
                assert(nb.drop_last() == bases);
                bases = nb;
                if died {
                    if !player_dies(pre.take(i as int)) {
                        assert(t[i as int] == e);
                    } else {
                        let w = choose|w: int| 0 <= w < i && dies(#[trigger] pre.take(i as int)[w].body) && pre.take(i as int)[w].body.kind == Kind::Player;
                        assert(t[w] == pre.take(i as int)[w]);
                    }
                } else {
                    assert forall|w: int| 0 <= w < t.len() && dies(#[trigger] t[w].body) implies t[w].body.kind != Kind::Player by {
                        if w < i {
                            assert(t[w] == pre.take(i as int)[w]);
                        }
                    }
                }
            }
            let mut b = e.body;
            b.health_changed = false;
            self.entities.set(i, Entity { id: e.id, body: b });
            i = i + 1;
        }
        assert(pre.take(pre.len() as int) == pre);
        proof {
            assert forall|x: int, y: int|
                0 <= x < y < self.entities@.len() implies self.entities@[x].id
                < self.entities@[y].id by {
                assert(self.entities@[x].id == pre[x].id);
                assert(self.entities@[y].id == pre[y].id);
            }
            assert forall|x: int| 0 <= x < self.entities@.len() implies #[trigger] self.entities@[x].id
                < self.next_id by {
                assert(self.entities@[x].id == pre[x].id);
            }
            assert forall|x: int| 0 <= x < self.entities@.len() implies (#[trigger] self.entities@[x]).body.wf() by {
                assert(pre[x].body.wf());
            }
            assert(self.entities@ =~= marks_cleared(pre));
        }
        died
    }
}

} // verus!
