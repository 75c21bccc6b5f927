//! Properties that hold across the library's rules, proved once for all
//! inputs.

use vstd::prelude::*;
use crate::animation::AnimationTimer;
use crate::body::Body;
use crate::bullet::bounce_spec;
use crate::combat::{damaged, hit_cmds, hit_damage, hits, is_target};
use crate::level::{CurrentLevelBundle, Level};
use crate::systems::{finished_spec, outside_spec, MARGIN};
use crate::geometry::WindowSize;
use crate::timer::{sat_add, Stopwatch, Timer};
use crate::world::{Command, Entity};

verus! {

/// Total damage is never negative.
pub proof fn lemma_hit_damage_nonneg(t: Body, ps: Seq<Entity>)
    ensures
        hit_damage(t, ps) >= 0,
    decreases ps.len(),
{
    if ps.len() > 0 {
        lemma_hit_damage_nonneg(t, ps.drop_last());
    }
}

/// Damage stops at zero: after the hits of a tick a target's health is its
/// old health less the smaller of that health and the total damage dealt.
pub proof fn law_damage_saturates(t: Body, ps: Seq<Entity>)
    requires
        is_target(t),
    ensures
        damaged(t, ps).health.unwrap().current == t.health.unwrap().current - vstd::math::min(
            t.health.unwrap().current as int,
            hit_damage(t, ps),
        ),
{
    lemma_hit_damage_nonneg(t, ps);
}

/// Every projectile that hits a target is removed exactly once on its
/// account, in order, and no other projectile is: the removals are the
/// hitting projectiles of the tick.
pub proof fn law_one_removal_per_hit(t: Body, ps: Seq<Entity>)
    ensures
        hit_cmds(t, ps) == ps.filter(|e: Entity| hits(e.body, t)).map_values(
            |e: Entity| Command::Despawn(e.id),
        ),
    decreases ps.len(),
{
    let pred = |e: Entity| hits(e.body, t);
    let f = |e: Entity| Command::Despawn(e.id);
    if ps.len() == 0 {
        assert(ps.filter(pred) =~= Seq::<Entity>::empty());
        assert(ps.filter(pred).map_values(f) =~= Seq::<Command>::empty());
    } else {
        law_one_removal_per_hit(t, ps.drop_last());
        reveal_with_fuel(Seq::filter, 1);
        let k = ps.drop_last().filter(pred);
        if pred(ps.last()) {
            assert(ps.filter(pred) == k.push(ps.last()));
            assert(k.push(ps.last()).map_values(f) =~= k.map_values(f).push(f(ps.last())));
        } else {
            assert(ps.filter(pred) == k);
        }
    }
}

/// A wave controller tick: an enemy falls due only by taking exactly one
/// from the quota; the wave index moves on exactly when the quota is spent
/// and a further wave exists, and only to that next wave; the controller
/// becomes exhausted exactly when the last wave's quota is spent.
pub proof fn law_wave_progress(s: CurrentLevelBundle, levels: Seq<Level>, delta: u64)
    requires
        s.wf(levels.len() as int),
        levels.len() <= usize::MAX,
    ensures
        s.advance_spec(levels, delta).1 ==> s.enemies_left.count > 0
            && s.advance_spec(levels, delta).0.enemies_left.count == s.enemies_left.count - 1
            && s.advance_spec(levels, delta).0.level == s.level,
        !s.advance_spec(levels, delta).1 ==> (s.advance_spec(levels, delta).0.enemies_left.count
            == s.enemies_left.count || s.advance_spec(levels, delta).0.level != s.level),
        (s.advance_spec(levels, delta).0.level != s.level) <==> (s.level.level is Some
            && s.enemies_left.count == 0),
        (s.level.level is Some && s.advance_spec(levels, delta).0.level.level is Some
            && s.advance_spec(levels, delta).0.level != s.level) ==> s.advance_spec(
            levels,
            delta,
        ).0.level.level.unwrap() == s.level.level.unwrap() + 1 && s.level.level.unwrap() + 1
            < levels.len() && s.advance_spec(levels, delta).0.enemies_left.count == levels[s.level.level.unwrap() + 1].enemy_limit,
        s.level.level is Some ==> ((s.advance_spec(levels, delta).0.level.level is None) <==> (
        s.enemies_left.count == 0 && s.level.level.unwrap() + 1 == levels.len())),
        s.level.level is None ==> s.advance_spec(levels, delta) == (s, false),
{
}

/// Bouncing keeps a projectile within `[-bound, bound]`, reverses its
/// horizontal velocity exactly when it has crossed a side, and a second
/// check on the result changes nothing: one reversal per crossing.
pub proof fn law_bounce(x: int, vx: int, bound: int)
    requires
        bound >= 0,
    ensures
        -bound <= bounce_spec(x, vx, bound).0 <= bound,
        bounce_spec(x, vx, bound).1 == if x > bound || x < -bound { -vx } else { vx },
        bounce_spec(bounce_spec(x, vx, bound).0, bounce_spec(x, vx, bound).1, bound) == bounce_spec(
            x,
            vx,
            bound,
        ),
{
}

/// An entity marked for it is removed exactly when its distance from the
/// centre passes `(window + extent) / 2 + margin` on either axis.
pub proof fn law_outside(b: Body, w: WindowSize)
    ensures
        outside_spec(b, w) <==> b.despawn_outside && (vstd::math::abs(b.position.x as int) > (
        w.width + b.size.width) / 2 + MARGIN || vstd::math::abs(b.position.y as int) > (w.height
            + b.size.height) / 2 + MARGIN),
{
}

/// A timed effect is removed exactly when its stopwatch reaches its limit,
/// whatever state its looping frame timer is in.
pub proof fn law_timed_effect(b: Body, frame_timer: Timer)
    requires
        b.animation is Some,
        b.time_limit is Some,
    ensures
        finished_spec(b) <==> (b.animation.unwrap().elapsed is Some
            && b.animation.unwrap().elapsed.unwrap().elapsed >= b.time_limit.unwrap().duration),
        finished_spec(
            Body {
                animation: Some(AnimationTimer { timer: frame_timer, ..b.animation.unwrap() }),
                ..b
            },
        ) == finished_spec(b),
{
}

/// The controller after ticks of `deltas`, in order, and how many enemies
/// fell due on the way.
pub open spec fn run_ticks(s: CurrentLevelBundle, levels: Seq<Level>, deltas: Seq<u64>) -> (CurrentLevelBundle, nat)
    decreases deltas.len(),
{
    if deltas.len() == 0 {
        (s, 0)
    } else {
        let (t, n) = run_ticks(s, levels, deltas.drop_last());
        let (u, due) = t.advance_spec(levels, deltas.last());
        (u, if due { n + 1 } else { n })
    }
}

/// A single wave, over any run of ticks: no more enemies fall due than its
/// quota; while the wave lasts the quota has fallen by exactly the number
/// spawned; and once the controller is exhausted exactly the quota was
/// spawned.
pub proof fn law_single_wave(s: CurrentLevelBundle, levels: Seq<Level>, deltas: Seq<u64>)
    requires
        levels.len() == 1,
        s.level.level == Some(0usize),
    ensures
        run_ticks(s, levels, deltas).1 <= s.enemies_left.count,
        run_ticks(s, levels, deltas).0.level.level is Some ==> run_ticks(s, levels, deltas).0.level.level
            == Some(0usize) && run_ticks(s, levels, deltas).0.enemies_left.count == s.enemies_left.count
            - run_ticks(s, levels, deltas).1,
        run_ticks(s, levels, deltas).0.level.level is None ==> run_ticks(s, levels, deltas).1
            == s.enemies_left.count,
    decreases deltas.len(),
{
    if deltas.len() > 0 {
        law_single_wave(s, levels, deltas.drop_last());
    }
}

/// The animation timer after ticks of `deltas`, in order.
pub open spec fn tick_all(a: AnimationTimer, deltas: Seq<u64>) -> AnimationTimer
    decreases deltas.len(),
{
    if deltas.len() == 0 {
        a
    } else {
        let b = tick_all(a, deltas.drop_last());
        AnimationTimer {
            timer: b.timer.ticked(deltas.last()),
            elapsed: match b.elapsed {
                Some(w) => Some(Stopwatch { elapsed: sat_add(w.elapsed, deltas.last()) }),
                None => None,
            },
        }
    }
}

/// The sum of `deltas`.
pub open spec fn total(deltas: Seq<u64>) -> int
    decreases deltas.len(),
{
    if deltas.len() == 0 {
        0
    } else {
        total(deltas.drop_last()) + deltas.last()
    }
}

/// A timed effect, over any run of ticks from its start: it is due for
/// removal exactly when the ticks add up to its limit (or the stopwatch is
/// full), however many times its frame loop has come round.
pub proof fn law_effect_lifetime(period: u64, deltas: Seq<u64>, limit: u64)
    ensures
        tick_all(
            AnimationTimer { elapsed: Some(Stopwatch { elapsed: 0 }), timer: Timer::new_spec(period, true) },
            deltas,
        ).elapsed == Some(Stopwatch { elapsed: vstd::math::min(total(deltas), u64::MAX as int) as u64 }),
        tick_all(
            AnimationTimer { elapsed: Some(Stopwatch { elapsed: 0 }), timer: Timer::new_spec(period, true) },
            deltas,
        ).reached(limit) <==> vstd::math::min(total(deltas), u64::MAX as int) >= limit,
    decreases deltas.len(),
{
    if deltas.len() > 0 {
        law_effect_lifetime(period, deltas.drop_last(), limit);
        assert(total(deltas.drop_last()) >= 0) by {
            lemma_total_nonneg(deltas.drop_last());
        }
    }
}

proof fn lemma_total_nonneg(deltas: Seq<u64>)
    ensures
        total(deltas) >= 0,
    decreases deltas.len(),
{
    if deltas.len() > 0 {
        lemma_total_nonneg(deltas.drop_last());
    }
}

} // verus!
