//! Enemy fire and strafing: the per-tick behaviours that draw at random.

use vstd::prelude::*;
use crate::body::{Body, Faction, Kind};
use crate::bullet::{Bullet, FireRate, PPM};
use crate::enemy::{strafe, strafe_spec, Attack, Movement, STRAFE_TURN_PPM};
use crate::geometry::{inner_bound, Vec2, WindowSize};
use crate::random::random_range;
use crate::world::{lemma_same_ids, spawns_wf, Command, Commands, Entity, Settings, World};

verus! {

/// Angle of an enemy's basic shot, in degrees: straight down.
pub const ENEMY_SHOT_ANGLE: i64 = -90;

/// Speed of an enemy's basic shot, in milli-units per tick.
pub const ENEMY_SHOT_SPEED: i64 = 8000;

/// Downward acceleration of a bomb, in milli-units per tick per tick.
pub const BOMB_FALL: i64 = 100;

/// `b` is an enemy that can fire.
pub open spec fn can_fire(b: Body) -> bool {
    b.kind is Enemy && b.attack.is_some() && b.fire_rate.is_some() && b.velocity.is_some()
}

/// `b` after its fire rate has advanced by `delta`.
pub open spec fn fire_ticked(b: Body, delta: u64) -> Body {
    if can_fire(b) {
        Body { fire_rate: Some(b.fire_rate.unwrap().ticked(delta)), ..b }
    } else {
        b
    }
}

/// The shot of enemy `e` (its rate already advanced), given draw `roll`.
pub open spec fn shot_cmds(e: Entity, s: Settings, roll: int) -> Seq<Command> {
    let b = e.body;
    if can_fire(b) && b.fire_rate.unwrap().ready_spec(roll as u32) {
        match b.attack.unwrap() {
            Attack::Basic => seq![
                Command::Spawn(
                    Bullet::Basic.single(s, b.position, Vec2 { x: 0, y: 0 }, Vec2 { x: 0, y: 0 }, ENEMY_SHOT_ANGLE as int, ENEMY_SHOT_SPEED as int, 4, Faction::Enemy),
                ),
            ],
            Attack::Bomb => seq![
                Command::Spawn(
                    Bullet::Bomb.single(s, b.position, Vec2 { x: b.velocity.unwrap().x, y: 0 }, Vec2 { x: 0, y: -BOMB_FALL as i64 }, 0, 0, 4, Faction::Enemy),
                ),
            ],
        }
    } else {
        Seq::empty()
    }
}

/// The shots of the entities of `es`, the `k`-th with draw `rolls[k]`.
pub open spec fn shots_all(es: Seq<Entity>, s: Settings, rolls: Seq<int>) -> Seq<Command>
    decreases es.len(),
{
    if es.len() == 0 || rolls.len() != es.len() {
        Seq::empty()
    } else {
        shots_all(es.drop_last(), s, rolls.drop_last()) + shot_cmds(es.last(), s, rolls.last())
    }
}

/// The entities `es` after their fire rates have advanced.
pub open spec fn fires_ticked(es: Seq<Entity>, delta: u64) -> Seq<Entity> {
    Seq::new(es.len(), |i: int| Entity { id: es[i].id, body: fire_ticked(es[i].body, delta) })
}

/// The entities `es` after their strafe checks, with the turn draws `turns`.
pub open spec fn strafe_seq(es: Seq<Entity>, w: WindowSize, turns: Seq<bool>) -> Seq<Entity> {
    Seq::new(es.len(), |i: int| Entity { id: es[i].id, body: strafed(es[i].body, w, turns[i]) })
}

/// `b` after its strafe check, with `turn` the random turn draw.
pub open spec fn strafed(b: Body, w: WindowSize, turn: bool) -> Body {
    match b.velocity {
        Some(v) => if b.kind is Enemy && b.movement == Some(Movement::Strafe) {
            let r = strafe_spec(b.position.x as int, v.x as int, (w.width - b.size.width) / 2, turn);
            Body {
                position: Vec2 { x: r.0 as i64, ..b.position },
                velocity: Some(Vec2 { x: r.1 as i64, ..v }),
                ..b
            }
        } else {
            b
        },
        None => b,
    }
}

/// Each entity of `post` is the entity of `pre` after its strafe check,
/// with the turn draws `turns`.
pub open spec fn strafed_all(pre: Seq<Entity>, post: Seq<Entity>, w: WindowSize, turns: Seq<bool>) -> bool {
    &&& turns.len() == pre.len()
    &&& post.len() == pre.len()
    &&& post == strafe_seq(pre, w, turns)
    &&& forall|i: int|
        0 <= i < pre.len() ==> #[trigger] post[i] == (Entity {
            id: pre[i].id,
            body: strafed(pre[i].body, w, turns[i]),
        })
}

impl World {
    /// Advances every enemy's fire rate and queues the shots of those that
    /// fire: a basic shot straight down, or a bomb that keeps the enemy's
    /// horizontal velocity and falls.
    pub fn fire_bullets(&mut self, settings: &Settings, delta: u64, commands: &mut Commands)
        requires
            old(self).wf(),
            settings.wf(),
        ensures
            final(self).wf(),
            final(self).next_id == old(self).next_id,
            final(self).entities@.len() == old(self).entities@.len(),
            forall|i: int|
                0 <= i < old(self).entities@.len() ==> #[trigger] final(self).entities@[i] == (
                Entity {
                    id: old(self).entities@[i].id,
                    body: fire_ticked(old(self).entities@[i].body, delta),
                }),
            final(self).entities@ == fires_ticked(old(self).entities@, delta),
            exists|rolls: Seq<int>|
                rolls.len() == old(self).entities@.len() && (forall|k: int|
                    0 <= k < rolls.len() ==> 0 <= #[trigger] rolls[k] < PPM)
                    && final(commands).queue@ == old(commands).queue@ + shots_all(
                    final(self).entities@,
                    *settings,
                    rolls,
                ),
            spawns_wf(old(commands).queue@) ==> spawns_wf(final(commands).queue@),
    {
        let ghost pre = self.entities@;
        let ghost mut rolls: Seq<int> = Seq::empty();
        let mut i: usize = 0;
        while i < self.entities.len()
            invariant
                pre == old(self).entities@,
                old(self).wf(),
                settings.wf(),
                self.next_id == old(self).next_id,
                self.entities@.len() == pre.len(),
                i <= pre.len(),
                rolls.len() == i,
                forall|k: int| 0 <= k < rolls.len() ==> 0 <= #[trigger] rolls[k] < PPM,
                forall|j: int|
                    0 <= j < i ==> #[trigger] self.entities@[j] == (Entity {
                        id: pre[j].id,
                        body: fire_ticked(pre[j].body, delta),
                    }),
                forall|j: int| i <= j < pre.len() ==> #[trigger] self.entities@[j] == pre[j],
                commands.queue@ == old(commands).queue@ + shots_all(self.entities@.take(i as int), *settings, rolls),
                spawns_wf(old(commands).queue@) ==> spawns_wf(commands.queue@),
            decreases pre.len() - i,
        {
            let e = self.entities[i];
            assert(pre[i as int].body.wf());
            let mut b = e.body;
            let mut roll: u32 = 0;
            let ghost before = commands.queue@;
            if matches!(b.kind, Kind::Enemy(_)) && b.attack.is_some() && b.fire_rate.is_some() && b.velocity.is_some() {
                let mut rate = b.fire_rate.unwrap();
                rate.tick(delta);
                b.fire_rate = Some(rate);
                if let FireRate::Random(_) = rate {
                    roll = random_range(0, PPM as u64) as u32;
                }
                if rate.ready(roll) {
                    let zero = Vec2::zero();
                    match b.attack.unwrap() {
                        Attack::Basic => {
                            commands.spawn(Bullet::Basic.spawn_single(settings, b.position, zero, zero, ENEMY_SHOT_ANGLE, ENEMY_SHOT_SPEED, 4, Faction::Enemy));
                        },
                        Attack::Bomb => {
                            let v = b.velocity.unwrap();
                            commands.spawn(Bullet::Bomb.spawn_single(settings, b.position, Vec2::new(v.x, 0), Vec2::new(0, -BOMB_FALL), 0, 0, 4, Faction::Enemy));
                        },
                    }
                }
            }
            let ne = Entity { id: e.id, body: b };
            let ghost prev = self.entities@;
            self.entities.set(i, ne);
            proof {
                assert(self.entities@.take(i as int) =~= prev.take(i as int));
                let t = self.entities@.take(i + 1);
                assert(t.drop_last() =~= self.entities@.take(i as int));
                assert(t.last() == ne);
                let nr = rolls.push(roll as int);
                assert(nr.drop_last() == rolls);
                rolls = nr;
                assert(commands.queue@ == before + shot_cmds(ne, *settings, roll as int));
            }
            i = i + 1;
        }
        assert(self.entities@.take(pre.len() as int) == self.entities@);
        proof {
            assert forall|x: int| 0 <= x < self.entities@.len() implies #[trigger] self.entities@[x].id == pre[x].id by {}
            assert forall|x: int| 0 <= x < self.entities@.len() implies (#[trigger] self.entities@[x]).body.wf() by {
                assert(pre[x].body.wf());
            }
            lemma_same_ids(pre, self.entities@, self.next_id);
            assert(self.entities@ =~= fires_ticked(pre, delta));
        }
    }

    /// Turns strafing enemies at the sides of the window, and at random with
    /// a small chance each tick.
    pub fn move_enemies(&mut self, w: WindowSize)
        requires
            old(self).wf(),
            w.wf(),
        ensures
            final(self).wf(),
            final(self).next_id == old(self).next_id,
            final(self).entities@.len() == old(self).entities@.len(),
            exists|turns: Seq<bool>|
                #[trigger] strafed_all(old(self).entities@, final(self).entities@, w, turns),
    {
        let ghost pre = self.entities@;
        let ghost mut turns: Seq<bool> = Seq::empty();
        let mut i: usize = 0;
        while i < self.entities.len()
            invariant
                pre == old(self).entities@,
                old(self).wf(),
                w.wf(),
                self.next_id == old(self).next_id,
                self.entities@.len() == pre.len(),
                i <= pre.len(),
                turns.len() == i,
                forall|j: int|
                    0 <= j < i ==> #[trigger] self.entities@[j] == (Entity {
                        id: pre[j].id,
                        body: strafed(pre[j].body, w, turns[j]),
                    }),
                forall|j: int| 0 <= j < i ==> (#[trigger] self.entities@[j]).body.wf(),
                forall|j: int| i <= j < pre.len() ==> #[trigger] self.entities@[j] == pre[j],
            decreases pre.len() - i,
        {
            let e = self.entities[i];
            assert(pre[i as int].body.wf());
            let mut b = e.body;
            let mut turn = false;
            if let Some(v) = b.velocity {
                if matches!(b.kind, Kind::Enemy(_)) && b.movement == Some(Movement::Strafe) {
                    turn = random_range(0, PPM as u64) < STRAFE_TURN_PPM as u64;
                    let bound = inner_bound(w.width, b.size.width);
                    let r = strafe(b.position.x, v.x, bound, turn);
                    b.position = Vec2::new(r.0, b.position.y);
                    b.velocity = Some(Vec2::new(r.1, v.y));
                }
            }
            self.entities.set(i, Entity { id: e.id, body: b });
            proof {
                turns = turns.push(turn);
            }
            i = i + 1;
        }
        proof {
            assert forall|x: int| 0 <= x < self.entities@.len() implies #[trigger] self.entities@[x].id == pre[x].id by {}
            lemma_same_ids(pre, self.entities@, self.next_id);
            assert(self.entities@ =~= strafe_seq(pre, w, turns));
            assert(strafed_all(pre, self.entities@, w, turns));
        }
    }
}

} // verus!
