//! The player census: a match in play or paused holds exactly one player,
//! and no rule of a frame removes or adds a player except its death.

use vstd::prelude::*;
use crate::body::{Body, Kind};
use crate::combat::{
    all_damaged, collide_cmds, death_cmds, deaths_all, dies, hit_cmds, marks_cleared, star_burst,
};
use crate::behavior::{shot_cmds, shots_all};
use crate::player::{player_shot, player_shots};
use crate::systems::{burst_spec, rule_all, rule_applies, rule_cmds, Rule};
use crate::world::{despawned, kept, spawned, Command, Entity, Settings};

verus! {

pub open spec fn is_player(e: Entity) -> bool {
    e.body.kind == Kind::Player
}

/// Exactly one entity of `es` is a player.
pub open spec fn one_player(es: Seq<Entity>) -> bool {
    exists|i: int|
        0 <= i < es.len() && is_player(#[trigger] es[i]) && forall|j: int|
            0 <= j < es.len() && is_player(#[trigger] es[j]) ==> j == i
}

/// No player is marked for removal outside the window or as a timed effect.
pub open spec fn players_settled(es: Seq<Entity>) -> bool {
    forall|i: int|
        0 <= i < es.len() && is_player(#[trigger] es[i]) ==> !es[i].body.despawn_outside
            && es[i].body.time_limit is None
}

/// `post` keeps, entry by entry, the identifiers, kinds and removal marks of
/// `pre`.
pub open spec fn same_roster(pre: Seq<Entity>, post: Seq<Entity>) -> bool {
    &&& post.len() == pre.len()
    &&& forall|i: int|
        0 <= i < pre.len() ==> (#[trigger] post[i]).id == pre[i].id && post[i].body.kind
            == pre[i].body.kind && post[i].body.despawn_outside == pre[i].body.despawn_outside
            && post[i].body.time_limit == pre[i].body.time_limit
}

/// Identifiers are distinct.
pub open spec fn ids_distinct(es: Seq<Entity>) -> bool {
    forall|i: int, j: int| 0 <= i < es.len() && 0 <= j < es.len() && es[i].id == es[j].id ==> i == j
}

/// A command that neither adds a player nor removes one of `es`.
pub open spec fn spares(c: Command, es: Seq<Entity>) -> bool {
    match c {
        Command::Spawn(b) => b.kind != Kind::Player,
        Command::Despawn(id) => forall|i: int| 0 <= i < es.len() && (#[trigger] es[i]).id == id ==> !is_player(es[i]),
        Command::Play(_) => true,
    }
}

/// A command that removes nothing and adds no player.
pub open spec fn quiet(c: Command) -> bool {
    match c {
        Command::Spawn(b) => b.kind != Kind::Player,
        Command::Despawn(_) => false,
        Command::Play(_) => true,
    }
}

/// A command that adds no player, and removes only an entity of `es` for
/// which `p` holds.
pub open spec fn removes_only(c: Command, es: Seq<Entity>, p: spec_fn(Body) -> bool) -> bool {
    match c {
        Command::Spawn(b) => b.kind != Kind::Player,
        Command::Despawn(id) => exists|j: int| 0 <= j < es.len() && (#[trigger] es[j]).id == id && p(es[j].body),
        Command::Play(_) => true,
    }
}

pub proof fn lemma_roster_trans(a: Seq<Entity>, b: Seq<Entity>, c: Seq<Entity>)
    requires
        same_roster(a, b),
        same_roster(b, c),
    ensures
        same_roster(a, c),
{
    assert forall|i: int| 0 <= i < a.len() implies (#[trigger] c[i]).id == a[i].id && c[i].body.kind
        == a[i].body.kind && c[i].body.despawn_outside == a[i].body.despawn_outside
        && c[i].body.time_limit == a[i].body.time_limit by {
        assert(b[i].id == a[i].id);
    }
}

/// The census carries over between entity lists with the same roster.
pub proof fn lemma_roster_keeps(a: Seq<Entity>, b: Seq<Entity>)
    requires
        same_roster(a, b),
    ensures
        one_player(a) ==> one_player(b),
        players_settled(a) ==> players_settled(b),
        ids_distinct(a) ==> ids_distinct(b),
{
    if one_player(a) {
        let i = choose|i: int| 0 <= i < a.len() && is_player(#[trigger] a[i]) && forall|j: int|
            0 <= j < a.len() && is_player(#[trigger] a[j]) ==> j == i;
        assert(is_player(b[i]));
        assert forall|j: int| 0 <= j < b.len() && is_player(#[trigger] b[j]) implies j == i by {
            assert(is_player(a[j]));
        }
    }
    if players_settled(a) {
        assert forall|i: int| 0 <= i < b.len() && is_player(#[trigger] b[i]) implies !b[i].body.despawn_outside
            && b[i].body.time_limit is None by {
            assert(is_player(a[i]));
        }
    }
    if ids_distinct(a) {
        assert forall|i: int, j: int| 0 <= i < b.len() && 0 <= j < b.len() && b[i].id == b[j].id implies i == j by {
            assert(b[i].id == a[i].id);
            assert(b[j].id == a[j].id);
        }
    }
}

pub proof fn lemma_player_shots_quiet(es: Seq<Entity>, k: crate::player::Keys, s: Settings, rolls: Seq<int>)
    ensures
        forall|i: int| 0 <= i < player_shots(es, k, s, rolls).len() ==> quiet(#[trigger] player_shots(es, k, s, rolls)[i]),
    decreases es.len(),
{
    if es.len() > 0 && rolls.len() == es.len() {
        lemma_player_shots_quiet(es.drop_last(), k, s, rolls.drop_last());
        let a = player_shots(es.drop_last(), k, s, rolls.drop_last());
        let b = player_shot(es.last(), k, s, rolls.last());
        assert forall|i: int| 0 <= i < player_shots(es, k, s, rolls).len() implies quiet(#[trigger] player_shots(es, k, s, rolls)[i]) by {
            if i >= a.len() {
                assert(player_shots(es, k, s, rolls)[i] == b[i - a.len()]);
            } else {
                assert(player_shots(es, k, s, rolls)[i] == a[i]);
            }
        }
    }
}

pub proof fn lemma_shots_quiet(es: Seq<Entity>, s: Settings, rolls: Seq<int>)
    ensures
        forall|i: int| 0 <= i < shots_all(es, s, rolls).len() ==> quiet(#[trigger] shots_all(es, s, rolls)[i]),
    decreases es.len(),
{
    if es.len() > 0 && rolls.len() == es.len() {
        lemma_shots_quiet(es.drop_last(), s, rolls.drop_last());
        let a = shots_all(es.drop_last(), s, rolls.drop_last());
        let b = shot_cmds(es.last(), s, rolls.last());
        assert forall|i: int| 0 <= i < shots_all(es, s, rolls).len() implies quiet(#[trigger] shots_all(es, s, rolls)[i]) by {
            if i >= a.len() {
                assert(shots_all(es, s, rolls)[i] == b[i - a.len()]);
            } else {
                assert(shots_all(es, s, rolls)[i] == a[i]);
            }
        }
    }
}

pub open spec fn is_bullet_body(b: Body) -> bool {
    b.kind is Bullet
}

pub proof fn lemma_hits_remove_bullets(t: Body, ps: Seq<Entity>)
    ensures
        forall|i: int| 0 <= i < hit_cmds(t, ps).len() ==> removes_only(#[trigger] hit_cmds(t, ps)[i], ps, |b: Body| is_bullet_body(b)),
    decreases ps.len(),
{
    if ps.len() > 0 {
        let t2 = ps.drop_last();
        lemma_hits_remove_bullets(t, t2);
        let a = hit_cmds(t, t2);
        assert forall|i: int| 0 <= i < hit_cmds(t, ps).len() implies removes_only(#[trigger] hit_cmds(t, ps)[i], ps, |b: Body| is_bullet_body(b)) by {
            if i < a.len() {
                assert(hit_cmds(t, ps)[i] == a[i]);
                if let Command::Despawn(id) = a[i] {
                    let j = choose|j: int| 0 <= j < t2.len() && (#[trigger] t2[j]).id == id && is_bullet_body(t2[j].body);
                    assert(ps[j] == t2[j]);
                }
            } else {
                assert(ps[ps.len() - 1] == ps.last());
            }
        }
    }
}

pub proof fn lemma_collide_remove_bullets(ts: Seq<Entity>, ps: Seq<Entity>)
    ensures
        forall|i: int| 0 <= i < collide_cmds(ts, ps).len() ==> removes_only(#[trigger] collide_cmds(ts, ps)[i], ps, |b: Body| is_bullet_body(b)),
    decreases ts.len(),
{
    if ts.len() > 0 {
        lemma_collide_remove_bullets(ts.drop_last(), ps);
        lemma_hits_remove_bullets(ts.last().body, ps);
        let a = collide_cmds(ts.drop_last(), ps);
        let b = hit_cmds(ts.last().body, ps);
        assert forall|i: int| 0 <= i < collide_cmds(ts, ps).len() implies removes_only(#[trigger] collide_cmds(ts, ps)[i], ps, |b: Body| is_bullet_body(b)) by {
            if i < a.len() {
                assert(collide_cmds(ts, ps)[i] == a[i]);
            } else {
                assert(collide_cmds(ts, ps)[i] == b[i - a.len()]);
            }
        }
    }
}

pub proof fn lemma_deaths_remove_dying(es: Seq<Entity>, s: Settings, bases: Seq<int>)
    ensures
        forall|i: int| 0 <= i < deaths_all(es, s, bases).len() ==> removes_only(#[trigger] deaths_all(es, s, bases)[i], es, |b: Body| dies(b)),
    decreases es.len(),
{
    if es.len() > 0 && bases.len() == es.len() {
        let t = es.drop_last();
        lemma_deaths_remove_dying(t, s, bases.drop_last());
        let a = deaths_all(t, s, bases.drop_last());
        let b = death_cmds(es.last(), s, bases.last());
        let burst = star_burst(s, es.last().body.position, bases.last());
        assert forall|i: int| 0 <= i < deaths_all(es, s, bases).len() implies removes_only(#[trigger] deaths_all(es, s, bases)[i], es, |b: Body| dies(b)) by {
            if i < a.len() {
                assert(deaths_all(es, s, bases)[i] == a[i]);
                if let Command::Despawn(id) = a[i] {
                    let j = choose|j: int| 0 <= j < t.len() && (#[trigger] t[j]).id == id && dies(t[j].body);
                    assert(es[j] == t[j]);
                }
            } else {
                assert(deaths_all(es, s, bases)[i] == b[i - a.len()]);
                assert(es[es.len() - 1] == es.last());
                if i - a.len() >= 3 {
                    assert(b[i - a.len()] == burst[i - a.len() - 3]);
                }
            }
        }
    }
}

pub proof fn lemma_rules_remove_applying(es: Seq<Entity>, rule: Rule, s: Settings)
    ensures
        forall|i: int| 0 <= i < rule_all(es, rule, s).len() ==> removes_only(#[trigger] rule_all(es, rule, s)[i], es, |b: Body| rule_applies(b, rule, s.window)),
    decreases es.len(),
{
    if es.len() > 0 {
        let t = es.drop_last();
        lemma_rules_remove_applying(t, rule, s);
        let a = rule_all(t, rule, s);
        let b = rule_cmds(es.last(), rule, s);
        let burst = burst_spec(s, es.last().body.position);
        assert forall|i: int| 0 <= i < rule_all(es, rule, s).len() implies removes_only(#[trigger] rule_all(es, rule, s)[i], es, |b: Body| rule_applies(b, rule, s.window)) by {
            if i < a.len() {
                assert(rule_all(es, rule, s)[i] == a[i]);
                if let Command::Despawn(id) = a[i] {
                    let j = choose|j: int| 0 <= j < t.len() && (#[trigger] t[j]).id == id && rule_applies(t[j].body, rule, s.window);
                    assert(es[j] == t[j]);
                }
            } else {
                assert(rule_all(es, rule, s)[i] == b[i - a.len()]);
                assert(es[es.len() - 1] == es.last());
                if i - a.len() >= 3 {
                    assert(b[i - a.len()] == burst[i - a.len() - 3]);
                }
            }
        }
    }
}

/// Every entity for which `rule` applies has its removal queued.
pub proof fn lemma_rules_cover(es: Seq<Entity>, rule: Rule, s: Settings)
    ensures
        forall|j: int| 0 <= j < es.len() && rule_applies(#[trigger] es[j].body, rule, s.window) ==> despawned(rule_all(es, rule, s), es[j].id),
    decreases es.len(),
{
    if es.len() > 0 {
        let t = es.drop_last();
        lemma_rules_cover(t, rule, s);
        let a = rule_all(t, rule, s);
        let b = rule_cmds(es.last(), rule, s);
        let q = rule_all(es, rule, s);
        assert forall|j: int| 0 <= j < es.len() && rule_applies(#[trigger] es[j].body, rule, s.window) implies despawned(q, es[j].id) by {
            if j < t.len() {
                assert(es[j] == t[j]);
                assert(rule_applies(t[j].body, rule, s.window));
                let k = choose|k: int| 0 <= k < a.len() && a[k] == Command::Despawn(t[j].id);
                assert(q[k] == a[k]);
            } else {
                assert(es[j] == es.last());
                assert(q[a.len() as int] == b[0]);
            }
        }
    }
}

/// What `kept` keeps is from `s` and not named by a removal; what it drops
/// is named by one.
pub proof fn lemma_kept_exact(s: Seq<Entity>, q: Seq<Command>)
    ensures
        forall|i: int| 0 <= i < kept(s, q).len() ==> s.contains(#[trigger] kept(s, q)[i]) && !despawned(q, kept(s, q)[i].id),
        forall|j: int| 0 <= j < s.len() && !despawned(q, (#[trigger] s[j]).id) ==> kept(s, q).contains(s[j]),
    decreases s.len(),
{
    if s.len() > 0 {
        let t = s.drop_last();
        lemma_kept_exact(t, q);
        let k = kept(t, q);
        assert forall|i: int| 0 <= i < kept(s, q).len() implies s.contains(#[trigger] kept(s, q)[i]) && !despawned(q, kept(s, q)[i].id) by {
            if i < k.len() {
                assert(kept(s, q)[i] == k[i]);
                assert(t.contains(k[i]));
                let j = choose|j: int| 0 <= j < t.len() && t[j] == k[i];
                assert(s[j] == t[j]);
            } else {
                assert(s[s.len() - 1] == s.last());
            }
        }
        assert forall|j: int| 0 <= j < s.len() && !despawned(q, (#[trigger] s[j]).id) implies kept(s, q).contains(s[j]) by {
            if j < t.len() {
                assert(s[j] == t[j]);
                let m = choose|m: int| 0 <= m < k.len() && k[m] == t[j];
                assert(kept(s, q)[m] == k[m]);
            } else {
                assert(s[j] == s.last());
                assert(kept(s, q)[k.len() as int] == s.last());
            }
        }
    }
}

/// Every entity that `spawned` makes carries the body of a spawn command.
pub proof fn lemma_spawned_from(q: Seq<Command>, next: u64)
    ensures
        forall|i: int| 0 <= i < spawned(q, next).0.len() ==> exists|k: int| 0 <= k < q.len() && #[trigger] q[k] == Command::Spawn((#[trigger] spawned(q, next).0[i]).body),
    decreases q.len(),
{
    if q.len() > 0 {
        let t = q.drop_last();
        lemma_spawned_from(t, next);
        let a = spawned(t, next).0;
        assert forall|i: int| 0 <= i < spawned(q, next).0.len() implies exists|k: int| 0 <= k < q.len() && #[trigger] q[k] == Command::Spawn((#[trigger] spawned(q, next).0[i]).body) by {
            if i < a.len() {
                let k = choose|k: int| 0 <= k < t.len() && #[trigger] t[k] == Command::Spawn(a[i].body);
                assert(q[k] == t[k]);
            } else {
                assert(q[q.len() - 1] == q.last());
            }
        }
    }
}

/// Applying commands that spare the player keeps exactly one player, still
/// settled.
pub proof fn lemma_census_after(c: Seq<Entity>, q: Seq<Command>, next: u64)
    requires
        one_player(c),
        players_settled(c),
        crate::world::ids_ordered(c, next),
        forall|k: int| 0 <= k < q.len() ==> spares(#[trigger] q[k], c),
    ensures
        one_player(kept(c, q) + spawned(q, next).0),
        players_settled(kept(c, q) + spawned(q, next).0),
{
    let ip = choose|i: int| 0 <= i < c.len() && is_player(#[trigger] c[i]) && forall|j: int|
        0 <= j < c.len() && is_player(#[trigger] c[j]) ==> j == i;
    lemma_kept_exact(c, q);
    lemma_spawned_from(q, next);
    crate::world::lemma_kept(c, q, next);
    let kq = kept(c, q);
    let sp = spawned(q, next).0;
    let f = kq + sp;
    assert(!despawned(q, c[ip].id)) by {
        if despawned(q, c[ip].id) {
            let k = choose|k: int| 0 <= k < q.len() && q[k] == Command::Despawn(c[ip].id);
            assert(spares(q[k], c));
        }
    }
    assert(kq.contains(c[ip]));
    let m = choose|m: int| 0 <= m < kq.len() && kq[m] == c[ip];
    assert(f[m] == c[ip]);
    assert forall|j: int| 0 <= j < f.len() && is_player(#[trigger] f[j]) implies j == m by {
        if j < kq.len() {
            assert(f[j] == kq[j]);
            assert(c.contains(kq[j]));
            let x = choose|x: int| 0 <= x < c.len() && c[x] == kq[j];
            assert(is_player(c[x]));
            assert(x == ip);
            if j != m {
                if j < m {
                    assert(kq[j].id < kq[m].id);
                } else {
                    assert(kq[m].id < kq[j].id);
                }
            }
        } else {
            assert(f[j] == sp[j - kq.len()]);
            let k = choose|k: int| 0 <= k < q.len() && #[trigger] q[k] == Command::Spawn(sp[j - kq.len()].body);
            assert(spares(q[k], c));
        }
    }
    assert(one_player(f));
    assert forall|i: int| 0 <= i < f.len() && is_player(#[trigger] f[i]) implies !f[i].body.despawn_outside
        && f[i].body.time_limit is None by {
        assert(i == m);
        assert(is_player(c[ip]));
    }
}


/// Every command of `q` spares the players of `es`.
pub open spec fn all_spare(q: Seq<Command>, es: Seq<Entity>) -> bool {
    forall|k: int| 0 <= k < q.len() ==> spares(#[trigger] q[k], es)
}

pub proof fn lemma_spare_concat(a: Seq<Command>, b: Seq<Command>, es: Seq<Entity>)
    requires
        all_spare(a, es),
        all_spare(b, es),
    ensures
        all_spare(a + b, es),
{
    assert forall|k: int| 0 <= k < (a + b).len() implies spares(#[trigger] (a + b)[k], es) by {
        if k < a.len() {
            assert((a + b)[k] == a[k]);
        } else {
            assert((a + b)[k] == b[k - a.len()]);
        }
    }
}

/// Removals of entities of `src`, matched by position to `es`, where `p`
/// holds only of non-players, spare the players of `es`.
pub proof fn lemma_removals_spare(q: Seq<Command>, src: Seq<Entity>, es: Seq<Entity>, p: spec_fn(Body) -> bool)
    requires
        same_roster(src, es),
        ids_distinct(es),
        forall|k: int| 0 <= k < q.len() ==> removes_only(#[trigger] q[k], src, p),
        forall|j: int| 0 <= j < src.len() && p((#[trigger] src[j]).body) ==> !is_player(src[j]),
    ensures
        all_spare(q, es),
{
    assert forall|k: int| 0 <= k < q.len() implies spares(#[trigger] q[k], es) by {
        assert(removes_only(q[k], src, p));
        if let Command::Despawn(id) = q[k] {
            let j = choose|j: int| 0 <= j < src.len() && (#[trigger] src[j]).id == id && p(src[j].body);
            assert forall|i: int| 0 <= i < es.len() && (#[trigger] es[i]).id == id implies !is_player(es[i]) by {
                assert(es[j].id == src[j].id);
                assert(i == j);
            }
        }
    }
}

/// Identifiers that strictly increase are distinct, and a list with the
/// same roster keeps them in order.
pub proof fn lemma_ids(a: Seq<Entity>, b: Seq<Entity>, next: u64)
    requires
        crate::world::ids_ordered(a, next),
        same_roster(a, b),
    ensures
        ids_distinct(a),
        ids_distinct(b),
        crate::world::ids_ordered(b, next),
{
    assert forall|i: int, j: int| 0 <= i < a.len() && 0 <= j < a.len() && a[i].id == a[j].id implies i == j by {
        if i < j {
            assert(a[i].id < a[j].id);
        } else if j < i {
            assert(a[j].id < a[i].id);
        }
    }
    lemma_roster_keeps(a, b);
    assert forall|i: int, j: int| 0 <= i < j < b.len() implies b[i].id < b[j].id by {
        assert(b[i].id == a[i].id);
        assert(b[j].id == a[j].id);
    }
    assert forall|i: int| 0 <= i < b.len() implies #[trigger] b[i].id < next by {
        assert(b[i].id == a[i].id);
    }
}

pub proof fn lemma_quiet_spare(q: Seq<Command>, es: Seq<Entity>)
    requires
        forall|k: int| 0 <= k < q.len() ==> quiet(#[trigger] q[k]),
    ensures
        all_spare(q, es),
{
    assert forall|k: int| 0 <= k < q.len() implies spares(#[trigger] q[k], es) by {
        assert(quiet(q[k]));
    }
}

pub proof fn lemma_roster_stepped(es: Seq<Entity>, step: crate::systems::Step, w: crate::geometry::WindowSize, delta: u64)
    ensures
        same_roster(es, crate::systems::stepped(es, step, w, delta)),
{
    reveal(crate::systems::step_spec);
    let t = crate::systems::stepped(es, step, w, delta);
    assert forall|i: int| 0 <= i < es.len() implies (#[trigger] t[i]).id == es[i].id && t[i].body.kind
        == es[i].body.kind && t[i].body.despawn_outside == es[i].body.despawn_outside
        && t[i].body.time_limit == es[i].body.time_limit by {
        assert(t[i].body == crate::systems::step_spec(es[i].body, step, w, delta));
    }
}

pub proof fn lemma_roster_maps(es: Seq<Entity>, k: crate::player::Keys, s: Settings, delta: u64, turns: Seq<bool>)
    ensures
        same_roster(es, crate::player::players_moved(es, k, s.compass)),
        same_roster(es, crate::player::players_ticked(es, delta)),
        same_roster(es, crate::behavior::fires_ticked(es, delta)),
        same_roster(es, crate::behavior::strafe_seq(es, s.window, turns)),
        same_roster(es, all_damaged(es)),
        same_roster(es, marks_cleared(es)),
{
    let a = crate::player::players_moved(es, k, s.compass);
    let b = crate::player::players_ticked(es, delta);
    let c = crate::behavior::fires_ticked(es, delta);
    let d = crate::behavior::strafe_seq(es, s.window, turns);
    let e = all_damaged(es);
    let f = marks_cleared(es);
    assert forall|i: int| 0 <= i < es.len() implies (#[trigger] a[i]).id == es[i].id && a[i].body.kind
        == es[i].body.kind && a[i].body.despawn_outside == es[i].body.despawn_outside
        && a[i].body.time_limit == es[i].body.time_limit by {}
    assert forall|i: int| 0 <= i < es.len() implies (#[trigger] b[i]).id == es[i].id && b[i].body.kind
        == es[i].body.kind && b[i].body.despawn_outside == es[i].body.despawn_outside
        && b[i].body.time_limit == es[i].body.time_limit by {}
    assert forall|i: int| 0 <= i < es.len() implies (#[trigger] c[i]).id == es[i].id && c[i].body.kind
        == es[i].body.kind && c[i].body.despawn_outside == es[i].body.despawn_outside
        && c[i].body.time_limit == es[i].body.time_limit by {}
    assert forall|i: int| 0 <= i < es.len() implies (#[trigger] d[i]).id == es[i].id && d[i].body.kind
        == es[i].body.kind && d[i].body.despawn_outside == es[i].body.despawn_outside
        && d[i].body.time_limit == es[i].body.time_limit by {}
    assert forall|i: int| 0 <= i < es.len() implies (#[trigger] e[i]).id == es[i].id && e[i].body.kind
        == es[i].body.kind && e[i].body.despawn_outside == es[i].body.despawn_outside
        && e[i].body.time_limit == es[i].body.time_limit by {}
    assert forall|i: int| 0 <= i < es.len() implies (#[trigger] f[i]).id == es[i].id && f[i].body.kind
        == es[i].body.kind && f[i].body.despawn_outside == es[i].body.despawn_outside
        && f[i].body.time_limit == es[i].body.time_limit by {}
}

} // verus!
