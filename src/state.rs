//! The match state machine and the per-frame schedule.

use vstd::prelude::*;
use crate::behavior::{fires_ticked, shots_all, strafe_seq};
use crate::body::{Body, Sound};
use crate::bullet::PPM;
use crate::combat::{all_damaged, collide_cmds, deaths_all, dies, marks_cleared, player_dies, STAR_STEP};
use crate::level::{levels_wf, CurrentLevelBundle, Level};
use crate::player::{player_shots, player_spec, players_moved, players_ticked, spawn_player, Keys};
use crate::starfield::{is_star_spawn, setup_starfield, STAR_COUNT};
use crate::systems::{rule_all, rule_applies, stepped, Rule, Step};
use crate::world::{despawned, kept, sounds, spawned, spawns_wf, Command, Commands, Entity, Settings, World};
use crate::roster::{
    all_spare, is_bullet_body, is_player, lemma_census_after, lemma_collide_remove_bullets,
    lemma_deaths_remove_dying, lemma_ids, lemma_player_shots_quiet, lemma_quiet_spare,
    lemma_removals_spare, lemma_roster_keeps, lemma_roster_maps, lemma_roster_stepped,
    lemma_roster_trans, lemma_rules_remove_applying, lemma_shots_quiet, lemma_spare_concat,
    one_player, players_settled, same_roster, spares,
};

verus! {

/// Which stages of the simulation run.
#[derive(Clone, Copy, Debug, PartialEq, Eq, Structural)]
pub enum GameState {
    GameOver,
    Paused,
    Playing,
}

/// What can move the match from one state to another.
#[derive(Clone, Copy, Debug, PartialEq, Eq, Structural)]
pub enum Event {
    /// The player's health reached zero.
    PlayerDied,
    Pause,
    Resume,
    /// Start a new match after the last one ended.
    Restart,
}

/// The state after `e`: death ends a match in play, a match in play can be
/// paused and resumed, and an ended match can restart. Every other event
/// leaves the state as it is.
pub open spec fn next_state_spec(s: GameState, e: Event) -> GameState {
    match (s, e) {
        (GameState::Playing, Event::PlayerDied) => GameState::GameOver,
        (GameState::Playing, Event::Pause) => GameState::Paused,
        (GameState::Paused, Event::Resume) => GameState::Playing,
        (GameState::GameOver, Event::Restart) => GameState::Playing,
        _ => s,
    }
}

pub fn next_state(s: GameState, e: Event) -> (r: GameState)
    ensures
        r == next_state_spec(s, e),
{
    match (s, e) {
        (GameState::Playing, Event::PlayerDied) => GameState::GameOver,
        (GameState::Playing, Event::Pause) => GameState::Paused,
        (GameState::Paused, Event::Resume) => GameState::Playing,
        (GameState::GameOver, Event::Restart) => GameState::Playing,
        _ => s,
    }
}

/// `n` draws, each in `[0, bound)`.
pub open spec fn draws_ok(d: Seq<int>, n: int, bound: int) -> bool {
    d.len() == n && forall|k: int| 0 <= k < d.len() ==> 0 <= #[trigger] d[k] < bound
}

/// The entities after the input stage: the player moves and its fire rate
/// advances, the enemies' fire rates advance, and the animations advance.
pub open spec fn input_entities(es: Seq<Entity>, k: Keys, s: Settings, delta: u64) -> Seq<Entity> {
    stepped(
        fires_ticked(players_ticked(players_moved(es, k, s.compass), delta), delta),
        Step::Animate,
        s.window,
        delta,
    )
}

/// What the input stage queues: the player's shots with draws `pr`, then the
/// enemies' shots with draws `er`.
pub open spec fn input_cmds(
    es: Seq<Entity>,
    k: Keys,
    s: Settings,
    delta: u64,
    pr: Seq<int>,
    er: Seq<int>,
) -> Seq<Command> {
    let p = players_ticked(players_moved(es, k, s.compass), delta);
    player_shots(p, k, s, pr) + shots_all(fires_ticked(p, delta), s, er)
}

/// The entities after the motion stage, with strafe turn draws `turns`:
/// acceleration, movement, the player's clamp, strafing, bouncing and
/// wrapping, in that order.
pub open spec fn motion_entities(es: Seq<Entity>, w: crate::geometry::WindowSize, delta: u64, turns: Seq<bool>) -> Seq<Entity> {
    let m = stepped(
        stepped(
            stepped(stepped(es, Step::Accelerate, w, delta), Step::Move, w, delta),
            Step::MoveStars,
            w,
            delta,
        ),
        Step::BoundPlayer,
        w,
        delta,
    );
    stepped(stepped(strafe_seq(m, w, turns), Step::Bounce, w, delta), Step::Wrap, w, delta)
}

/// What the combat stage queues, with death burst angles `bases`: the hits,
/// the death sequences, then the floor bursts and the removals of entities
/// outside the window and of finished effects.
pub open spec fn combat_cmds(es: Seq<Entity>, s: Settings, bases: Seq<int>) -> Seq<Command> {
    let c = marks_cleared(all_damaged(es));
    collide_cmds(es, es) + deaths_all(all_damaged(es), s, bases) + rule_all(c, Rule::Floor, s)
        + rule_all(c, Rule::Outside, s) + rule_all(c, Rule::Finished, s)
}

/// The spawn of the enemy that the spawn controller made, if any.
pub open spec fn spawn_cmd(spawn: Option<Body>) -> Seq<Command> {
    match spawn {
        Some(b) => seq![Command::Spawn(b)],
        None => Seq::empty(),
    }
}

/// A frame in play took `g` to `h` and gave the sound cues `out`, with the
/// random draws `pr`, `er` (fire), `turns` (strafing), `bases` (death
/// bursts) and the enemy `spawn` that the controller made. The controller
/// advances as `advance_spec` says; the world is the entities after every
/// stage with the queued commands applied; a dead player ends the match.
pub open spec fn frame_ok(
    g: Game,
    h: Game,
    k: Keys,
    delta: u64,
    out: Seq<Sound>,
    pr: Seq<int>,
    er: Seq<int>,
    turns: Seq<bool>,
    bases: Seq<int>,
    spawn: Option<Body>,
) -> bool {
    let s = g.settings;
    let e0 = g.world.entities@;
    let e1 = input_entities(e0, k, s, delta);
    let e2 = motion_entities(e1, s.window, delta, turns);
    let a = g.session.advance_spec(g.levels@, delta);
    let q = input_cmds(e0, k, s, delta, pr, er) + combat_cmds(e2, s, bases) + spawn_cmd(spawn);
    &&& draws_ok(pr, e0.len() as int, PPM as int)
    &&& draws_ok(er, e0.len() as int, PPM as int)
    &&& draws_ok(bases, e0.len() as int, STAR_STEP as int)
    &&& turns.len() == e0.len()
    &&& spawn.is_some() == a.1
    &&& (spawn matches Some(b) ==> b.kind is Enemy)
    &&& h.session.level == a.0.level
    &&& h.session.enemies_left == a.0.enemies_left
    &&& h.world.entities@ == kept(marks_cleared(all_damaged(e2)), q) + spawned(q, g.world.next_id).0
    &&& h.world.next_id == spawned(q, g.world.next_id).1
    &&& h.state == (if player_dies(all_damaged(e2)) { GameState::GameOver } else { GameState::Playing })
    &&& out == sounds(q)
}

/// A match: the world, the spawn controller, the match state, and the
/// configuration and level table they read.
pub struct Game {
    pub world: World,
    pub session: CurrentLevelBundle,
    pub state: GameState,
    pub settings: Settings,
    pub levels: Vec<Level>,
}

impl Game {
    /// The game is well formed, and while in play or paused its world holds
    /// exactly one player.
    pub open spec fn wf(&self) -> bool {
        &&& self.parts_wf()
        &&& (self.state == GameState::Playing || self.state == GameState::Paused) ==> one_player(
            self.world.entities@,
        ) && players_settled(self.world.entities@)
    }

    /// The world, the configuration, the level table and the spawn
    /// controller are each well formed.
    pub open spec fn parts_wf(&self) -> bool {
        &&& self.world.wf()
        &&& self.settings.wf()
        &&& self.levels@.len() > 0
        &&& levels_wf(self.levels@)
        &&& self.session.wf(self.levels@.len() as int)
    }

    /// A match in play: the player at its start, the starfield, and the
    /// spawn controller at the first wave.
    pub fn setup(settings: Settings, levels: Vec<Level>) -> (r: Game)
        requires
            settings.wf(),
            levels@.len() > 0,
            levels_wf(levels@),
        ensures
            r.wf(),
            r.state == GameState::Playing,
            r.session == CurrentLevelBundle::initial(levels@),
            r.world.entities@.len() == 1 + STAR_COUNT,
            r.world.entities@[0].body == player_spec(settings),
            forall|i: int|
                1 <= i < r.world.entities@.len() ==> is_star_spawn(
                    settings,
                    Command::Spawn(#[trigger] r.world.entities@[i].body),
                ),
    {
        let mut world = World::new();
        let mut commands = Commands::new();
        commands.spawn(spawn_player(&settings));
        setup_starfield(&settings, &mut commands);
        let _ = world.apply(&commands);
        proof {
            let q = commands.queue@;
            assert(q[0] == Command::Spawn(player_spec(settings)));
            assert forall|k: int| 0 <= k < q.len() implies (#[trigger] q[k]) is Spawn by {
                if k > 0 {
                    assert(is_star_spawn(settings, q[k]));
                }
            }
            lemma_all_spawns(q, 0);
            assert(kept(Seq::<Entity>::empty(), q) =~= Seq::<Entity>::empty());
            assert(world.entities@ =~= spawned(q, 0).0);
            assert forall|i: int| 1 <= i < world.entities@.len() implies is_star_spawn(
                settings, Command::Spawn(#[trigger] world.entities@[i].body)) by {
                assert(is_star_spawn(settings, q[i]));
            }
        }
        let session = CurrentLevelBundle::new(&levels);
        Game { world, session, state: GameState::Playing, settings, levels }
    }

    /// Handles `event`. A restart removes every transient entity (the
    /// starfield stays), brings the player back and restarts the spawn
    /// controller at the first wave; once entity identifiers have run out it
    /// cannot bring the player back, and the match stays over.
    pub fn handle(&mut self, event: Event)
        requires
            old(self).wf(),
        ensures
            final(self).wf(),
            final(self).state == if restart_blocked(*old(self), event) {
                old(self).state
            } else {
                next_state_spec(old(self).state, event)
            },
            final(self).settings == old(self).settings,
            final(self).levels@ == old(self).levels@,
            (old(self).state == GameState::GameOver && event == Event::Restart && !restart_blocked(*old(self), event)) ==> {
                let q = rule_all(old(self).world.entities@, Rule::Transient, old(self).settings).push(
                    Command::Spawn(player_spec(old(self).settings)),
                );
                &&& final(self).session == CurrentLevelBundle::initial(old(self).levels@)
                &&& final(self).world.entities@ == kept(old(self).world.entities@, q) + spawned(
                    q,
                    old(self).world.next_id,
                ).0
            },
            !(old(self).state == GameState::GameOver && event == Event::Restart && !restart_blocked(*old(self), event)) ==> (
            final(self).world == old(self).world && final(self).session == old(self).session),
    {
        let next = next_state(self.state, event);
        if self.state == GameState::GameOver && next == GameState::Playing {
            if self.world.next_id == u64::MAX {
                return;
            }
            let ghost e0 = self.world.entities@;
            let mut commands = Commands::new();
            self.world.collect(Rule::Transient, &self.settings, &mut commands);
            let ghost a = commands.queue@;
            commands.spawn(spawn_player(&self.settings));
            let ghost n0 = self.world.next_id;
            let _ = self.world.apply(&commands);
            self.session.reset_level(&self.levels);
            proof {
                lemma_restart_census(e0, self.settings, n0);
            }
        }
        self.state = next;
    }

    /// Runs one frame of `delta` nanoseconds with `keys` held. In play every
    /// stage runs in order: input, fire and animation timers, acceleration,
    /// movement, bounds and wrapping, collision, deaths and removals, then
    /// the spawn controller; the queued changes are applied at the end of
    /// the frame, and a dead player ends the match. After a match ends only
    /// the starfield and the remaining effects run on; while paused nothing
    /// moves. Returns the sound cues of the frame.
    pub fn run_frame(&mut self, keys: Keys, delta: u64) -> (r: Vec<Sound>)
        requires
            old(self).wf(),
        ensures
            final(self).wf(),
            final(self).settings == old(self).settings,
            final(self).levels@ == old(self).levels@,
            old(self).state == GameState::Paused ==> final(self).world == old(self).world
                && final(self).session == old(self).session && final(self).state == GameState::Paused
                && r@.len() == 0,
            old(self).state == GameState::GameOver ==> final(self).state == GameState::GameOver
                && final(self).session == old(self).session
                && final(self).world.entities@ == kept(
                    after_game_over(old(self).world.entities@, old(self).settings.window, delta),
                    rule_all(after_game_over(old(self).world.entities@, old(self).settings.window, delta), Rule::Finished, old(self).settings),
                )
                && forall|i: int| 0 <= i < final(self).world.entities@.len()
                    ==> frozen_from(old(self).world.entities@, #[trigger] final(self).world.entities@[i]),
            old(self).state == GameState::Playing ==> exists|
                pr: Seq<int>,
                er: Seq<int>,
                turns: Seq<bool>,
                bases: Seq<int>,
                spawn: Option<Body>,
            | #[trigger] frame_ok(*old(self), *final(self), keys, delta, r@, pr, er, turns, bases, spawn),
    {
        if self.state == GameState::Paused {
            return Vec::new();
        }
        let w = self.settings.window;
        let mut commands = Commands::new();
        if self.state == GameState::GameOver {
            self.world.map_bodies(Step::MoveStars, w, delta);
            self.world.map_bodies(Step::Wrap, w, delta);
            self.world.map_bodies(Step::Animate, w, delta);
            self.world.collect(Rule::Finished, &self.settings, &mut commands);
            let ghost g = self.world.entities@;
            let out = self.world.apply(&commands);
            proof {
                lemma_only_despawns(g, Rule::Finished, self.settings);
                lemma_no_spawns(commands.queue@, old(self).world.next_id);
                assert(self.world.entities@ =~= kept(g, commands.queue@));
                lemma_kept_in(g, commands.queue@);
                assert forall|i: int| 0 <= i < self.world.entities@.len() implies frozen_from(
                    old(self).world.entities@, #[trigger] self.world.entities@[i]) by {
                    let e = self.world.entities@[i];
                    assert(g.contains(e));
                    let j = choose|j: int| 0 <= j < g.len() && g[j] == e;
                    lemma_steps_keep(old(self).world.entities@[j].body, w, delta);
                    assert(old(self).world.entities@[j].id == e.id);
                }
            }
            return out;
        }
        let ghost g0 = *self;
        let ghost e0 = self.world.entities@;
        self.input_stage(keys, delta, &mut commands);
        let ghost q1 = commands.queue@;
        let ghost (pr, er) = choose|pr: Seq<int>, er: Seq<int>|
            draws_ok(pr, e0.len() as int, PPM as int) && draws_ok(er, e0.len() as int, PPM as int)
                && q1 == Seq::<Command>::empty() + #[trigger] input_cmds(e0, keys, g0.settings, delta, pr, er);
        let ghost e1 = self.world.entities@;
        self.motion_stage(delta);
        let ghost turns = choose|turns: Seq<bool>|
            turns.len() == e1.len() && self.world.entities@ == #[trigger] motion_entities(e1, w, delta, turns);
        let ghost e2 = self.world.entities@;
        let died = self.combat_stage(&mut commands);
        let ghost q2 = commands.queue@;
        let ghost bases = choose|bases: Seq<int>|
            draws_ok(bases, e2.len() as int, STAR_STEP as int) && q2 == q1 + #[trigger] combat_cmds(e2, g0.settings, bases);
        let spawn = self.session.spawn_enemies(&self.levels, delta, &self.settings);
        match spawn {
            Some(b) => commands.spawn(b),
            None => {},
        }
        proof {
            assert(commands.queue@ =~= input_cmds(e0, keys, g0.settings, delta, pr, er) + combat_cmds(e2, g0.settings, bases) + spawn_cmd(spawn));
        }
        let sounds = self.world.apply(&commands);
        if died {
            self.state = next_state(self.state, Event::PlayerDied);
        }
        proof {
            assert(frame_ok(g0, *self, keys, delta, sounds@, pr, er, turns, bases, spawn));
            if !died {
                lemma_frame_census(e0, keys, g0.settings, delta, pr, er, turns, bases, spawn, g0.world.next_id);
            }
        }
        sounds
    }
}

impl Game {
    /// Player input, then the fire and animation timers.
    fn input_stage(&mut self, keys: Keys, delta: u64, commands: &mut Commands)
        requires
            old(self).parts_wf(),
            spawns_wf(old(commands).queue@),
        ensures
            final(self).parts_wf(),
            spawns_wf(final(commands).queue@),
            final(self).settings == old(self).settings,
            final(self).levels@ == old(self).levels@,
            final(self).session == old(self).session,
            final(self).state == old(self).state,
            final(self).world.next_id == old(self).world.next_id,
            final(self).world.entities@ == input_entities(old(self).world.entities@, keys, old(self).settings, delta),
            exists|pr: Seq<int>, er: Seq<int>|
                draws_ok(pr, old(self).world.entities@.len() as int, PPM as int)
                && draws_ok(er, old(self).world.entities@.len() as int, PPM as int)
                && final(commands).queue@ == old(commands).queue@ + #[trigger] input_cmds(
                    old(self).world.entities@, keys, old(self).settings, delta, pr, er),
    {
        let ghost e0 = self.world.entities@;
        let ghost q0 = commands.queue@;
        let w = self.settings.window;
        self.world.move_player(keys, &self.settings);
        self.world.fire_player(keys, &self.settings, delta, commands);
        let ghost q1 = commands.queue@;
        let ghost p = self.world.entities@;
        self.world.fire_bullets(&self.settings, delta, commands);
        let ghost q2 = commands.queue@;
        let ghost f = self.world.entities@;
        self.world.map_bodies(Step::Animate, w, delta);
        proof {
            let pr = choose|rolls: Seq<int>|
                rolls.len() == e0.len() && (forall|k: int| 0 <= k < rolls.len() ==> 0 <= #[trigger] rolls[k] < PPM)
                    && q1 == q0 + player_shots(p, keys, self.settings, rolls);
            let er = choose|rolls: Seq<int>|
                rolls.len() == e0.len() && (forall|k: int| 0 <= k < rolls.len() ==> 0 <= #[trigger] rolls[k] < PPM)
                    && q2 == q1 + shots_all(f, self.settings, rolls);
            assert(q2 =~= q0 + input_cmds(e0, keys, self.settings, delta, pr, er));
        }
    }

    /// Acceleration, movement, then bounds and wrapping.
    fn motion_stage(&mut self, delta: u64)
        requires
            old(self).parts_wf(),
        ensures
            final(self).parts_wf(),
            final(self).settings == old(self).settings,
            final(self).levels@ == old(self).levels@,
            final(self).session == old(self).session,
            final(self).state == old(self).state,
            final(self).world.next_id == old(self).world.next_id,
            exists|turns: Seq<bool>|
                turns.len() == old(self).world.entities@.len() && final(self).world.entities@
                    == #[trigger] motion_entities(old(self).world.entities@, old(self).settings.window, delta, turns),
    {
        let ghost e0 = self.world.entities@;
        let w = self.settings.window;
        self.world.map_bodies(Step::Accelerate, w, delta);
        self.world.map_bodies(Step::Move, w, delta);
        self.world.map_bodies(Step::MoveStars, w, delta);
        self.world.map_bodies(Step::BoundPlayer, w, delta);
        let ghost m = self.world.entities@;
        self.world.move_enemies(w);
        let ghost s1 = self.world.entities@;
        assert(exists|turns: Seq<bool>| #[trigger] crate::behavior::strafed_all(m, s1, w, turns));
        let ghost turns = choose|turns: Seq<bool>| #[trigger] crate::behavior::strafed_all(m, s1, w, turns);
        self.world.map_bodies(Step::Bounce, w, delta);
        self.world.map_bodies(Step::Wrap, w, delta);
        assert(self.world.entities@ == motion_entities(e0, w, delta, turns));
    }

    /// Collision, the death sequences, then the removal rules. Returns
    /// whether the player died.
    fn combat_stage(&mut self, commands: &mut Commands) -> (died: bool)
        requires
            old(self).parts_wf(),
            spawns_wf(old(commands).queue@),
        ensures
            final(self).parts_wf(),
            spawns_wf(final(commands).queue@),
            final(self).settings == old(self).settings,
            final(self).levels@ == old(self).levels@,
            final(self).session == old(self).session,
            final(self).state == old(self).state,
            final(self).world.next_id == old(self).world.next_id,
            final(self).world.entities@ == marks_cleared(all_damaged(old(self).world.entities@)),
            died == player_dies(all_damaged(old(self).world.entities@)),
            exists|bases: Seq<int>|
                draws_ok(bases, old(self).world.entities@.len() as int, STAR_STEP as int)
                && final(commands).queue@ == old(commands).queue@ + #[trigger] combat_cmds(
                    old(self).world.entities@, old(self).settings, bases),
    {
        let ghost e0 = self.world.entities@;
        let ghost q0 = commands.queue@;
        self.world.collide(commands);
        let ghost q1 = commands.queue@;
        let ghost d = self.world.entities@;
        let died = self.world.explode_dying(&self.settings, commands);
        let ghost q2 = commands.queue@;
        self.world.collect(Rule::Floor, &self.settings, commands);
        self.world.collect(Rule::Outside, &self.settings, commands);
        self.world.collect(Rule::Finished, &self.settings, commands);
        proof {
            let bases = choose|bases: Seq<int>|
                bases.len() == d.len() && (forall|k: int| 0 <= k < bases.len() ==> 0 <= #[trigger] bases[k] < STAR_STEP)
                    && q2 == q1 + deaths_all(d, self.settings, bases);
            assert(commands.queue@ =~= q0 + combat_cmds(e0, self.settings, bases));
        }
        died
    }
}

/// A restart cannot bring the player back once entity identifiers have run
/// out; the match then stays over.
pub open spec fn restart_blocked(g: Game, e: Event) -> bool {
    g.state == GameState::GameOver && e == Event::Restart && g.world.next_id == u64::MAX
}

/// After a restart the world holds exactly one player: every earlier one is
/// removed as transient, and one is spawned.
proof fn lemma_restart_census(e0: Seq<Entity>, s: Settings, next: u64)
    requires
        next < u64::MAX,
    ensures
        ({
            let q = rule_all(e0, Rule::Transient, s).push(Command::Spawn(player_spec(s)));
            one_player(kept(e0, q) + spawned(q, next).0) && players_settled(kept(e0, q) + spawned(q, next).0)
        }),
{
    let a = rule_all(e0, Rule::Transient, s);
    let q = a.push(Command::Spawn(player_spec(s)));
    lemma_only_despawns(e0, Rule::Transient, s);
    lemma_no_spawns(a, next);
    assert(q.drop_last() == a);
    assert(spawned(q, next).0 =~= seq![Entity { id: next, body: player_spec(s) }]);
    crate::roster::lemma_kept_exact(e0, q);
    crate::roster::lemma_rules_cover(e0, Rule::Transient, s);
    let kq = kept(e0, q);
    let f = kq + spawned(q, next).0;
    assert forall|j: int| 0 <= j < kq.len() implies !is_player(#[trigger] kq[j]) by {
        assert(e0.contains(kq[j]));
        let x = choose|x: int| 0 <= x < e0.len() && e0[x] == kq[j];
        if is_player(kq[j]) {
            assert(rule_applies(e0[x].body, Rule::Transient, s.window));
            assert(despawned(a, e0[x].id));
            let m = choose|m: int| 0 <= m < a.len() && a[m] == Command::Despawn(e0[x].id);
            assert(q[m] == a[m]);
        }
    }
    let ip = kq.len() as int;
    assert(f[ip] == Entity { id: next, body: player_spec(s) });
    assert forall|j: int| 0 <= j < f.len() && is_player(#[trigger] f[j]) implies j == ip by {
        if j < kq.len() {
            assert(f[j] == kq[j]);
        }
    }
    assert(is_player(f[ip]));
    assert(one_player(f));
    assert forall|i: int| 0 <= i < f.len() && is_player(#[trigger] f[i]) implies !f[i].body.despawn_outside
        && f[i].body.time_limit is None by {
        if i < kq.len() {
            assert(f[i] == kq[i]);
        }
    }
}

/// The entities `es` after a frame once the match has ended: the stars move
/// and wrap, and the animations advance.
pub open spec fn after_game_over(es: Seq<Entity>, w: crate::geometry::WindowSize, delta: u64) -> Seq<Entity> {
    stepped(stepped(stepped(es, Step::MoveStars, w, delta), Step::Wrap, w, delta), Step::Animate, w, delta)
}

/// `e` comes from an entity of `es` with the same identifier and kind, and
/// unless it is a star, with the same position and velocity.
pub open spec fn frozen_from(es: Seq<Entity>, e: Entity) -> bool {
    exists|j: int|
        0 <= j < es.len() && (#[trigger] es[j]).id == e.id && es[j].body.kind == e.body.kind && (!(
        e.body.kind is Star) ==> e.body.position == es[j].body.position && e.body.velocity
            == es[j].body.velocity)
}

proof fn lemma_steps_keep(b: Body, w: crate::geometry::WindowSize, delta: u64)
    ensures
        ({
            let c = crate::systems::step_spec(
                crate::systems::step_spec(crate::systems::step_spec(b, Step::MoveStars, w, delta), Step::Wrap, w, delta),
                Step::Animate,
                w,
                delta,
            );
            c.kind == b.kind && (!(b.kind is Star) ==> c.position == b.position && c.velocity == b.velocity)
        }),
{
    reveal(crate::systems::step_spec);
}

proof fn lemma_only_despawns(es: Seq<Entity>, rule: Rule, s: Settings)
    requires
        rule != Rule::Floor,
    ensures
        forall|k: int| 0 <= k < rule_all(es, rule, s).len() ==> (#[trigger] rule_all(es, rule, s)[k]) is Despawn,
    decreases es.len(),
{
    if es.len() > 0 {
        lemma_only_despawns(es.drop_last(), rule, s);
        let a = rule_all(es.drop_last(), rule, s);
        let b = crate::systems::rule_cmds(es.last(), rule, s);
        assert forall|k: int| 0 <= k < rule_all(es, rule, s).len() implies (#[trigger] rule_all(es, rule, s)[k]) is Despawn by {
            if k < a.len() {
                assert(rule_all(es, rule, s)[k] == a[k]);
            } else {
                assert(rule_all(es, rule, s)[k] == b[k - a.len()]);
            }
        }
    }
}

proof fn lemma_no_spawns(q: Seq<Command>, next: u64)
    requires
        forall|k: int| 0 <= k < q.len() ==> (#[trigger] q[k]) is Despawn,
    ensures
        spawned(q, next).0.len() == 0,
        spawned(q, next).1 == next,
    decreases q.len(),
{
    if q.len() > 0 {
        let t = q.drop_last();
        assert forall|k: int| 0 <= k < t.len() implies (#[trigger] t[k]) is Despawn by {
            assert(t[k] == q[k]);
        }
        lemma_no_spawns(t, next);
        assert(q.last() == q[q.len() - 1]);
    }
}

proof fn lemma_kept_in(s: Seq<Entity>, q: Seq<Command>)
    ensures
        forall|i: int| 0 <= i < kept(s, q).len() ==> s.contains(#[trigger] kept(s, q)[i]),
    decreases s.len(),
{
    if s.len() > 0 {
        let t = s.drop_last();
        lemma_kept_in(t, q);
        assert forall|i: int| 0 <= i < kept(s, q).len() implies s.contains(#[trigger] kept(s, q)[i]) by {
            let k = kept(t, q);
            if i < k.len() {
                assert(t.contains(k[i]));
                let j = choose|j: int| 0 <= j < t.len() && t[j] == k[i];
                assert(s[j] == t[j]);
            } else {
                assert(s[s.len() - 1] == s.last());
            }
        }
    }
}

/// A frame in play in which the player does not die keeps exactly one
/// player.
proof fn lemma_frame_census(
    e0: Seq<Entity>,
    k: Keys,
    s: Settings,
    delta: u64,
    pr: Seq<int>,
    er: Seq<int>,
    turns: Seq<bool>,
    bases: Seq<int>,
    spawn: Option<Body>,
    next: u64,
)
    requires
        one_player(e0),
        players_settled(e0),
        crate::world::ids_ordered(e0, next),
        spawn matches Some(b) ==> b.kind is Enemy,
        !player_dies(all_damaged(motion_entities(input_entities(e0, k, s, delta), s.window, delta, turns))),
    ensures
        ({
            let e2 = motion_entities(input_entities(e0, k, s, delta), s.window, delta, turns);
            let c = marks_cleared(all_damaged(e2));
            let q = input_cmds(e0, k, s, delta, pr, er) + combat_cmds(e2, s, bases) + spawn_cmd(spawn);
            one_player(kept(c, q) + spawned(q, next).0) && players_settled(kept(c, q) + spawned(q, next).0)
        }),
{
    let w = s.window;
    let a1 = players_moved(e0, k, s.compass);
    let a2 = players_ticked(a1, delta);
    let a3 = fires_ticked(a2, delta);
    let e1 = input_entities(e0, k, s, delta);
    lemma_roster_maps(e0, k, s, delta, turns);
    lemma_roster_maps(a1, k, s, delta, turns);
    lemma_roster_maps(a2, k, s, delta, turns);
    lemma_roster_stepped(a3, Step::Animate, w, delta);
    lemma_roster_trans(e0, a1, a2);
    lemma_roster_trans(e0, a2, a3);
    lemma_roster_trans(e0, a3, e1);
    let m1 = stepped(e1, Step::Accelerate, w, delta);
    let m2 = stepped(m1, Step::Move, w, delta);
    let m3 = stepped(m2, Step::MoveStars, w, delta);
    let m4 = stepped(m3, Step::BoundPlayer, w, delta);
    let m5 = strafe_seq(m4, w, turns);
    let m6 = stepped(m5, Step::Bounce, w, delta);
    let e2 = stepped(m6, Step::Wrap, w, delta);
    lemma_roster_stepped(e1, Step::Accelerate, w, delta);
    lemma_roster_stepped(m1, Step::Move, w, delta);
    lemma_roster_stepped(m2, Step::MoveStars, w, delta);
    lemma_roster_stepped(m3, Step::BoundPlayer, w, delta);
    lemma_roster_maps(m4, k, s, delta, turns);
    lemma_roster_stepped(m5, Step::Bounce, w, delta);
    lemma_roster_stepped(m6, Step::Wrap, w, delta);
    lemma_roster_trans(e0, e1, m1);
    lemma_roster_trans(e0, m1, m2);
    lemma_roster_trans(e0, m2, m3);
    lemma_roster_trans(e0, m3, m4);
    lemma_roster_trans(e0, m4, m5);
    lemma_roster_trans(e0, m5, m6);
    lemma_roster_trans(e0, m6, e2);
    assert(e2 == motion_entities(e1, w, delta, turns));
    let d = all_damaged(e2);
    let c = marks_cleared(d);
    lemma_roster_maps(e2, k, s, delta, turns);
    lemma_roster_maps(d, k, s, delta, turns);
    lemma_roster_trans(e0, e2, d);
    lemma_roster_trans(e0, d, c);
    lemma_roster_trans(e2, d, c);
    lemma_ids(e0, c, next);
    lemma_ids(e0, e2, next);
    lemma_ids(e0, d, next);
    lemma_roster_keeps(e0, c);
    // input commands
    lemma_player_shots_quiet(a2, k, s, pr);
    lemma_shots_quiet(a3, s, er);
    lemma_quiet_spare(player_shots(a2, k, s, pr), c);
    lemma_quiet_spare(shots_all(a3, s, er), c);
    lemma_spare_concat(player_shots(a2, k, s, pr), shots_all(a3, s, er), c);
    // combat commands
    let pb = |b: Body| is_bullet_body(b);
    lemma_collide_remove_bullets(e2, e2);
    lemma_removals_spare(collide_cmds(e2, e2), e2, c, pb);
    let pd = |b: Body| dies(b);
    lemma_deaths_remove_dying(d, s, bases);
    assert forall|j: int| 0 <= j < d.len() && pd((#[trigger] d[j]).body) implies !is_player(d[j]) by {
        if is_player(d[j]) {
            assert(player_dies(d));
        }
    }
    lemma_removals_spare(deaths_all(d, s, bases), d, c, pd);
    let pf = |b: Body| rule_applies(b, Rule::Floor, w);
    let po = |b: Body| rule_applies(b, Rule::Outside, w);
    let pn = |b: Body| rule_applies(b, Rule::Finished, w);
    lemma_rules_remove_applying(c, Rule::Floor, s);
    lemma_rules_remove_applying(c, Rule::Outside, s);
    lemma_rules_remove_applying(c, Rule::Finished, s);
    assert(same_roster(c, c));
    assert forall|j: int| 0 <= j < c.len() && po((#[trigger] c[j]).body) implies !is_player(c[j]) by {}
    assert forall|j: int| 0 <= j < c.len() && pn((#[trigger] c[j]).body) implies !is_player(c[j]) by {}
    assert forall|j: int| 0 <= j < c.len() && pf((#[trigger] c[j]).body) implies !is_player(c[j]) by {}
    lemma_removals_spare(rule_all(c, Rule::Floor, s), c, c, pf);
    lemma_removals_spare(rule_all(c, Rule::Outside, s), c, c, po);
    lemma_removals_spare(rule_all(c, Rule::Finished, s), c, c, pn);
    let i1 = input_cmds(e0, k, s, delta, pr, er);
    assert(i1 == player_shots(a2, k, s, pr) + shots_all(a3, s, er));
    lemma_spare_concat(collide_cmds(e2, e2), deaths_all(d, s, bases), c);
    lemma_spare_concat(collide_cmds(e2, e2) + deaths_all(d, s, bases), rule_all(c, Rule::Floor, s), c);
    lemma_spare_concat(collide_cmds(e2, e2) + deaths_all(d, s, bases) + rule_all(c, Rule::Floor, s), rule_all(c, Rule::Outside, s), c);
    lemma_spare_concat(collide_cmds(e2, e2) + deaths_all(d, s, bases) + rule_all(c, Rule::Floor, s) + rule_all(c, Rule::Outside, s), rule_all(c, Rule::Finished, s), c);
    let cc = combat_cmds(e2, s, bases);
    lemma_spare_concat(i1, cc, c);
    assert(all_spare(spawn_cmd(spawn), c)) by {
        assert forall|x: int| 0 <= x < spawn_cmd(spawn).len() implies spares(#[trigger] spawn_cmd(spawn)[x], c) by {}
    }
    lemma_spare_concat(i1 + cc, spawn_cmd(spawn), c);
    let q = i1 + cc + spawn_cmd(spawn);
    lemma_census_after(c, q, next);
}

/// A queue of spawns only makes one entity for each, in order.
proof fn lemma_all_spawns(q: Seq<Command>, next: u64)
    requires
        forall|k: int| 0 <= k < q.len() ==> (#[trigger] q[k]) is Spawn,
        next + q.len() < u64::MAX,
    ensures
        spawned(q, next).0.len() == q.len(),
        spawned(q, next).1 == next + q.len(),
        forall|k: int| 0 <= k < q.len() ==> q[k] == Command::Spawn(#[trigger] spawned(q, next).0[k].body),
    decreases q.len(),
{
    if q.len() > 0 {
        let t = q.drop_last();
        assert forall|k: int| 0 <= k < t.len() implies (#[trigger] t[k]) is Spawn by {
            assert(t[k] == q[k]);
        }
        lemma_all_spawns(t, next);
        assert(q.last() == q[q.len() - 1]);
        assert forall|k: int| 0 <= k < q.len() implies q[k] == Command::Spawn(#[trigger] spawned(q, next).0[k].body) by {
            if k < t.len() {
                assert(t[k] == q[k]);
            }
        }
    }
}


} // verus!
