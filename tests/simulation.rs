use zenith::animation::{next_frame, spawn_explosion, AnimationTimer};
use zenith::body::{Body, Faction, Hitbox, Kind, Sound, StarSize};
use zenith::bullet::{bounce, Bullet, BulletSprites, Damage, FireRate, PPM};
use zenith::enemy::{strafe, Enemy, Health};
use zenith::geometry::{
    circles_overlap, distance_squared, inner_bound, outer_bound, Compass, SpriteScale, SpriteSize,
    Vec2, WindowSize,
};
use zenith::level::{default_levels, CurrentLevelBundle, Level};
use zenith::player::{heart_full, player_velocity, spawn_player, Keys};
use zenith::starfield::{setup_starfield, StarSprites, STAR_COUNT};
use zenith::state::{next_state, Event, Game, GameState};
use zenith::systems::{Rule, Step};
use zenith::timer::{SpawnTimer, Stopwatch, Timer};
use zenith::world::{Command, Commands, Settings, World};

const MS: u64 = 1_000_000;

fn compass() -> Compass {
    let mut dirs = Vec::new();
    for d in 0..360 {
        let a = (d as f64).to_radians();
        dirs.push(Vec2::new((a.cos() * 1000.0) as i64, (a.sin() * 1000.0) as i64));
    }
    Compass::new(dirs).unwrap()
}

fn size(w: i64, h: i64) -> SpriteSize {
    SpriteSize { width: w, height: h }
}

fn settings() -> Settings {
    Settings {
        window: WindowSize::from_window(800_000, 960_000).unwrap(),
        scale: SpriteScale::new(1500),
        compass: compass(),
        bullets: BulletSprites { basic: size(6_000, 6_000), bomb: size(8_000, 8_000), small: size(2_000, 6_000) },
        stars: StarSprites { small: size(1_000, 1_000), medium: size(2_000, 2_000), large: size(3_000, 3_000) },
    }
}

fn no_keys() -> Keys {
    Keys { left: false, right: false, up: false, down: false, slow: false, fire: false }
}

fn one_level(quota: u32) -> Vec<Level> {
    vec![Level { delay: 800..3200, enemies: vec![(Enemy::Basic, 1)], enemy_limit: quota }]
}

fn world_of(bodies: Vec<Body>) -> World {
    let mut w = World::new();
    let mut c = Commands::new();
    for b in bodies {
        c.spawn(b);
    }
    w.apply(&c);
    w
}

fn enemy_bullet(s: &Settings, at: Vec2, damage: u32) -> Body {
    let mut b = Bullet::Basic.spawn_single(s, at, Vec2::zero(), Vec2::zero(), 0, 0, 4, Faction::Enemy);
    b.damage = Some(Damage(damage));
    b
}

#[test]
fn repeating_timer_keeps_overshoot() {
    let mut t = Timer::new(100 * MS, true);
    t.tick(150 * MS);
    assert!(t.finished());
    assert_eq!(t.elapsed(), 50 * MS);
    t.tick(10 * MS);
    assert!(!t.finished());
    assert_eq!(t.elapsed(), 60 * MS);
    t.tick(250 * MS);
    assert!(t.finished());
    assert_eq!(t.elapsed(), 10 * MS);
}

#[test]
fn one_shot_timer_stays_finished() {
    let mut t = Timer::new(100 * MS, false);
    t.tick(150 * MS);
    assert!(t.finished());
    assert_eq!(t.elapsed(), 100 * MS);
    t.tick(10 * MS);
    assert!(t.finished());
    t.reset();
    assert!(!t.finished());
    assert_eq!(t.elapsed(), 0);
}

#[test]
fn spawn_timer_reset_uses_milliseconds() {
    let mut t = SpawnTimer::new(1000 * MS);
    t.tick(999 * MS);
    assert!(!t.finished());
    t.tick(MS);
    assert!(t.finished());
    t.reset(800);
    assert_eq!(t.timer.duration(), 800 * MS);
    assert!(!t.finished());
}

#[test]
fn stopwatch_saturates() {
    let mut s = Stopwatch::new();
    s.tick(u64::MAX - 1);
    s.tick(5);
    assert_eq!(s.elapsed, u64::MAX);
}

#[test]
fn health_saturates_at_zero() {
    let mut h = Health::new(3);
    h.damage(1);
    assert_eq!(h.current, 2);
    h.damage(10);
    assert_eq!(h.current, 0);
    h.damage(1);
    assert_eq!(h.current, 0);
}

#[test]
fn circle_test_scenario() {
    let enemy = Vec2::new(0, 0);
    assert!(circles_overlap(enemy, 31_000, Vec2::new(33_000, 0), 3_000));
    assert!(!circles_overlap(enemy, 31_000, Vec2::new(35_000, 0), 3_000));
    assert!(!circles_overlap(enemy, 31_000, Vec2::new(34_000, 0), 3_000));
    assert_eq!(distance_squared(Vec2::new(3, 4), Vec2::new(0, 0)), 25);
}

#[test]
fn bounds_of_sprites() {
    assert_eq!(inner_bound(800_000, 75_000), 362_500);
    assert_eq!(outer_bound(800_000, 75_000), 437_500);
    assert_eq!(inner_bound(10, 13), -2);
}

#[test]
fn bounce_flips_once_per_crossing() {
    assert_eq!(bounce(410, 5, 400), (400, -5));
    assert_eq!(bounce(400, -5, 400), (400, -5));
    assert_eq!(bounce(-401, -3, 400), (-400, 3));
    assert_eq!(bounce(0, 7, 400), (0, 7));
}

#[test]
fn strafe_turns_at_walls_and_on_draw() {
    assert_eq!(strafe(500, 2, 400, false), (400, -2));
    assert_eq!(strafe(100, 2, 400, true), (100, -2));
    assert_eq!(strafe(100, 2, 400, false), (100, 2));
}

#[test]
fn next_frame_wraps() {
    assert_eq!(next_frame(0, 12), 1);
    assert_eq!(next_frame(11, 12), 0);
}

#[test]
fn compass_rejects_bad_tables() {
    assert!(Compass::new(vec![Vec2::new(1000, 0)]).is_none());
    let mut dirs = compass().dirs;
    dirs[7] = Vec2::new(1001, 0);
    assert!(Compass::new(dirs).is_none());
    let mut dirs = compass().dirs;
    dirs[7] = Vec2::new(800, 700);
    assert!(Compass::new(dirs).is_none());
    let mut dirs = compass().dirs;
    dirs[90] = Vec2::new(1, 999);
    assert!(Compass::new(dirs).is_none());
    assert!(WindowSize::from_window(-1, 10).is_none());
}

#[test]
fn polar_velocity() {
    let c = compass();
    assert_eq!(c.polar(90, 8_000), Vec2::new(0, 8_000));
    assert_eq!(c.polar(-90, 8_000), Vec2::new(0, -8_000));
    assert_eq!(c.polar(450, 12_000), Vec2::new(0, 12_000));
    assert_eq!(c.polar(45, 8_000), Vec2::new(5_656, 5_656));
}

#[test]
fn player_velocity_from_keys() {
    let c = compass();
    let mut k = no_keys();
    assert_eq!(player_velocity(k, 6_000, &c), Vec2::new(0, 0));
    k.right = true;
    assert_eq!(player_velocity(k, 6_000, &c), Vec2::new(6_000, 0));
    k.slow = true;
    assert_eq!(player_velocity(k, 6_000, &c), Vec2::new(3_000, 0));
    k.slow = false;
    k.up = true;
    assert_eq!(player_velocity(k, 6_000, &c), Vec2::new(4_242, 4_242));
    k.left = true;
    assert_eq!(player_velocity(k, 6_000, &c), Vec2::new(0, 6_000));
}

#[test]
fn bullet_kinds() {
    let s = settings();
    let b = Bullet::Bomb.spawn_single(&s, Vec2::new(5, 6), Vec2::new(2_000, 0), Vec2::new(0, -100), 0, 0, 4, Faction::Enemy);
    assert_eq!(b.hitbox, Some(Hitbox { radius: 6_000 }));
    assert_eq!(b.size, size(12_000, 12_000));
    assert_eq!(b.velocity, Some(Vec2::new(2_000, 0)));
    assert_eq!(b.acceleration, Some(Vec2::new(0, -100)));
    assert_eq!(b.faction, Some(Faction::Enemy));
    assert_eq!(b.damage, Some(Damage(1)));
    assert_eq!(b.kind, Kind::Bullet(Bullet::Bomb));
    let p = Bullet::Small.spawn_single(&s, Vec2::new(0, 0), Vec2::zero(), Vec2::zero(), 90, 12_000, 1, Faction::Player);
    assert_eq!(p.velocity, Some(Vec2::new(0, 12_000)));
    assert_eq!(p.hitbox, Some(Hitbox { radius: 1_500 }));
}

#[test]
fn spawn_fans_out_by_angle() {
    let s = settings();
    let fan = Bullet::Basic.spawn(&s, Vec2::new(0, 0), Vec2::zero(), Vec2::zero(), 90, &vec![-45, 0, 45], 8_000, 4, Faction::Enemy);
    let v: Vec<Vec2> = fan.iter().map(|b| b.velocity.unwrap()).collect();
    assert_eq!(v, vec![Vec2::new(5_656, 5_656), Vec2::new(0, 8_000), Vec2::new(-5_656, 5_656)]);
    assert!(fan.iter().all(|b| b.faction == Some(Faction::Enemy)));
}

#[test]
fn fire_rate_draws() {
    assert!(!FireRate::Random(0).finished());
    assert!(FireRate::Random(PPM).finished());
    assert!(FireRate::Random(10).ready(9));
    assert!(!FireRate::Random(10).ready(10));
    let mut r = FireRate::from_seconds(180 * MS);
    assert!(!r.finished());
    r.tick(200 * MS);
    assert!(r.finished());
}

#[test]
fn enemy_spawns_within_ranges() {
    let s = settings();
    for _ in 0..50 {
        let e = Enemy::Basic.spawn_single(&s);
        let v = e.velocity.unwrap();
        assert_eq!(v.x, 0);
        assert!(-2_000 < v.y && v.y <= -1_000);
        assert_eq!(e.size, size(75_000, 64_500));
        assert!(-362_500 <= e.position.x && e.position.x < 362_500);
        assert_eq!(e.position.y, 512_250);
        assert_eq!(e.health, Some(Health::new(1)));
        match e.fire_rate.unwrap() {
            FireRate::Regular(t) => assert!(400 * MS <= t.duration() && t.duration() < 550 * MS),
            FireRate::Random(_) => panic!("a basic enemy fires regularly"),
        }
        let b = Enemy::Bomber.spawn_single(&s);
        let v = b.velocity.unwrap();
        assert!(1_500 <= v.x.abs() && v.x.abs() < 2_000);
        assert_eq!(v.y, -(v.x.abs() / 4));
        assert_eq!(b.health, Some(Health::new(2)));
    }
}

#[test]
fn apply_removes_then_spawns() {
    let s = settings();
    let mut w = world_of(vec![spawn_player(&s), spawn_player(&s)]);
    assert_eq!(w.entities.len(), 2);
    assert_eq!(w.next_id, 2);
    let mut c = Commands::new();
    c.despawn(0);
    c.despawn(0);
    c.play(Sound::Fire);
    c.spawn(spawn_player(&s));
    let sounds = w.apply(&c);
    assert_eq!(sounds, vec![Sound::Fire]);
    let ids: Vec<u64> = w.entities.iter().map(|e| e.id).collect();
    assert_eq!(ids, vec![1, 2]);
}

#[test]
fn outside_entities_are_removed() {
    let s = settings();
    let mut inside = enemy_bullet(&s, Vec2::new(0, 0), 1);
    inside.size = size(6_000, 6_000);
    let mut edge = inside;
    edge.position = Vec2::new(415_000, 0);
    let mut beyond = inside;
    beyond.position = Vec2::new(415_001, 0);
    let mut below = inside;
    below.position = Vec2::new(0, -495_001);
    let mut star = zenith::starfield::spawn_star(&s, StarSize::Small, Vec2::new(0, -900_000), 1_000);
    star.despawn_outside = false;
    let w = world_of(vec![inside, edge, beyond, below, star]);
    let mut c = Commands::new();
    w.collect(Rule::Outside, &s, &mut c);
    assert_eq!(c.queue, vec![Command::Despawn(2), Command::Despawn(3)]);
}

#[test]
fn explosion_lasts_its_full_duration() {
    let s = settings();
    let mut w = world_of(vec![spawn_explosion(&s, Vec2::new(0, 0), 2)]);
    let mut removed_after = 0;
    for tick in 1..=20 {
        w.map_bodies(Step::Animate, s.window, 100 * MS);
        let mut c = Commands::new();
        w.collect(Rule::Finished, &s, &mut c);
        if !c.queue.is_empty() {
            removed_after = tick;
            break;
        }
    }
    assert_eq!(removed_after, 12);
}

#[test]
fn animation_loops_frames() {
    let mut a = AnimationTimer::with_elapsed(100 * MS);
    a.tick(250 * MS);
    assert!(a.finished());
    assert!(a.elapsed(250 * MS));
    assert!(!a.elapsed(251 * MS));
    assert!(!AnimationTimer::new(MS).elapsed(0));
}

#[test]
fn player_spawns_at_lower_quarter_and_idles() {
    let mut g = Game::setup(settings(), one_level(10));
    let p = g.world.entities[0];
    assert_eq!(p.body.kind, Kind::Player);
    assert_eq!(p.body.position, Vec2::new(0, -240_000));
    assert_eq!(p.body.z, 3);
    assert_eq!(g.world.entities.len(), 1 + STAR_COUNT as usize);
    g.run_frame(no_keys(), 16 * MS);
    let p = g.world.entities.iter().find(|e| e.body.kind == Kind::Player).unwrap();
    assert_eq!(p.body.position, Vec2::new(0, -240_000));
    assert_eq!(g.state, GameState::Playing);
}

#[test]
fn player_is_held_in_the_window() {
    let mut g = Game::setup(settings(), one_level(10));
    let mut k = no_keys();
    k.left = true;
    for _ in 0..200 {
        g.run_frame(k, MS);
    }
    let p = g.world.entities.iter().find(|e| e.body.kind == Kind::Player).unwrap();
    assert_eq!(p.body.position.x, -362_500);
}

#[test]
fn wave_of_ten_then_exhausted() {
    let s = settings();
    let levels = default_levels();
    assert_eq!(levels[0].delay, 800..3200);
    assert_eq!(levels[0].enemy_limit, 10);
    let mut session = CurrentLevelBundle::new(&levels);
    let mut spawned = 0;
    for _ in 0..10 {
        let r = session.spawn_enemies(&levels, 4_000 * MS, &s);
        assert!(r.is_some());
        assert_eq!(r.unwrap().kind, Kind::Enemy(Enemy::Basic));
        spawned += 1;
        assert_eq!(session.enemies_left.count, 10 - spawned);
        let d = session.timer.timer.duration();
        assert!(800 * MS <= d && d < 3_200 * MS);
        assert!(!session.timer.finished());
    }
    assert_eq!(session.level.level, Some(0));
    assert!(session.spawn_enemies(&levels, 4_000 * MS, &s).is_none());
    assert_eq!(session.level.level, None);
    assert!(session.spawn_enemies(&levels, 4_000 * MS, &s).is_none());
}

#[test]
fn wave_advances_to_the_next() {
    let s = settings();
    let levels = vec![
        Level { delay: 800..3200, enemies: vec![(Enemy::Basic, 1)], enemy_limit: 1 },
        Level { delay: 10..20, enemies: vec![(Enemy::Basic, 0), (Enemy::Bomber, 5)], enemy_limit: 3 },
    ];
    let mut session = CurrentLevelBundle::new(&levels);
    assert!(!session.advance(&levels, 999 * MS));
    assert!(session.advance(&levels, MS));
    assert_eq!(session.enemies_left.count, 0);
    assert!(!session.advance(&levels, 0));
    assert_eq!(session.level.level, Some(1));
    assert_eq!(session.enemies_left.count, 3);
    session.reseed(10);
    let e = session.spawn_enemies(&levels, 20 * MS, &s).unwrap();
    assert_eq!(e.kind, Kind::Enemy(Enemy::Bomber));
    let d = session.timer.timer.duration();
    assert!(10 * MS <= d && d < 20 * MS);
    session.reset_level(&levels);
    assert_eq!(session, CurrentLevelBundle::new(&levels));
}

#[test]
fn hits_accumulate_within_a_tick() {
    let s = settings();
    let player = spawn_player(&s);
    let at = player.position;
    let mut w = world_of(vec![player, enemy_bullet(&s, at, 1), enemy_bullet(&s, at, 1), enemy_bullet(&s, at, 1)]);
    let mut c = Commands::new();
    w.collide(&mut c);
    assert_eq!(c.queue, vec![Command::Despawn(1), Command::Despawn(2), Command::Despawn(3)]);
    assert_eq!(w.entities[0].body.health, Some(Health::new(2)));
    assert!(!w.explode_dying(&s, &mut Commands::new()));
    w.apply(&c);
    let mut big = Commands::new();
    big.spawn(enemy_bullet(&s, at, 10));
    w.apply(&big);
    let mut c = Commands::new();
    w.collide(&mut c);
    assert_eq!(w.entities[0].body.health, Some(Health::new(0)));
    let mut d = Commands::new();
    assert!(w.explode_dying(&s, &mut d));
    assert_eq!(d.queue[0], Command::Despawn(0));
    assert_eq!(d.queue[2], Command::Play(Sound::Explosion));
    assert_eq!(d.queue.len(), 3);
    let mut again = Commands::new();
    assert!(!w.explode_dying(&s, &mut again));
    assert!(again.queue.is_empty());
}

#[test]
fn own_side_projectiles_do_not_hit() {
    let s = settings();
    let player = spawn_player(&s);
    let own = Bullet::Small.spawn_single(&s, player.position, Vec2::zero(), Vec2::zero(), 90, 0, 1, Faction::Player);
    let mut w = world_of(vec![player, own]);
    let mut c = Commands::new();
    w.collide(&mut c);
    assert!(c.queue.is_empty());
    assert_eq!(w.entities[0].body.health, Some(Health::new(5)));
}

#[test]
fn bomber_death_leaves_a_star_burst() {
    let s = settings();
    let mut e = Enemy::Bomber.spawn_single(&s);
    e.health = Some(Health::new(0));
    e.health_changed = true;
    let mut w = world_of(vec![e]);
    let mut c = Commands::new();
    assert!(!w.explode_dying(&s, &mut c));
    assert_eq!(c.queue.len(), 9);
    let spawned = c.queue.iter().filter(|q| matches!(q, Command::Spawn(b) if b.faction == Some(Faction::Enemy))).count();
    assert_eq!(spawned, 6);
}

#[test]
fn bomb_bursts_at_the_floor() {
    let s = settings();
    let bomb = Bullet::Bomb.spawn_single(&s, Vec2::new(0, -477_000), Vec2::zero(), Vec2::zero(), 0, 0, 4, Faction::Enemy);
    let high = Bullet::Bomb.spawn_single(&s, Vec2::new(0, -470_000), Vec2::zero(), Vec2::zero(), 0, 0, 4, Faction::Enemy);
    let w = world_of(vec![bomb, high]);
    let mut c = Commands::new();
    w.collect(Rule::Floor, &s, &mut c);
    assert_eq!(c.queue.len(), 6);
    assert_eq!(c.queue[0], Command::Despawn(0));
    assert_eq!(c.queue[2], Command::Play(Sound::Explosion));
    match c.queue[4] {
        Command::Spawn(b) => assert_eq!(b.velocity, Some(Vec2::new(0, 8_000))),
        _ => panic!("expected a projectile"),
    }
}

#[test]
fn bouncing_bomb_turns_at_the_wall() {
    let s = settings();
    let bomb = Bullet::Bomb.spawn_single(&s, Vec2::new(399_000, 0), Vec2::new(3_000, 0), Vec2::zero(), 0, 0, 4, Faction::Enemy);
    let mut w = world_of(vec![bomb]);
    w.map_bodies(Step::Bounce, s.window, 0);
    assert_eq!(w.entities[0].body.position.x, 394_000);
    assert_eq!(w.entities[0].body.velocity, Some(Vec2::new(-3_000, 0)));
}

#[test]
fn stars_wrap_to_the_top() {
    let s = settings();
    let star = zenith::starfield::spawn_star(&s, StarSize::Large, Vec2::new(0, -481_000), 2_000);
    let mut w = world_of(vec![star]);
    w.map_bodies(Step::MoveStars, s.window, 0);
    assert_eq!(w.entities[0].body.position.y, -483_000);
    w.map_bodies(Step::Wrap, s.window, 0);
    assert_eq!(w.entities[0].body.position.y, 481_500);
}

#[test]
fn acceleration_then_velocity() {
    let s = settings();
    let b = Bullet::Bomb.spawn_single(&s, Vec2::new(0, 0), Vec2::new(1_000, 0), Vec2::new(0, -100), 0, 0, 4, Faction::Enemy);
    let mut w = world_of(vec![b]);
    w.map_bodies(Step::Accelerate, s.window, 0);
    w.map_bodies(Step::Move, s.window, 0);
    assert_eq!(w.entities[0].body.position, Vec2::new(1_000, -100));
}

#[test]
fn starfield_setup() {
    let s = settings();
    let mut c = Commands::new();
    setup_starfield(&s, &mut c);
    assert_eq!(c.queue.len(), 200);
    for q in &c.queue {
        match q {
            Command::Spawn(b) => {
                assert!(matches!(b.kind, Kind::Star(_)));
                assert!(b.position.x.abs() <= 400_000 && b.position.y.abs() <= 480_000);
                let v = b.velocity.unwrap();
                assert!(-9_000 < v.y && v.y <= -1_000);
            }
            _ => panic!("expected a star"),
        }
    }
}

#[test]
fn match_states() {
    assert_eq!(next_state(GameState::Playing, Event::PlayerDied), GameState::GameOver);
    assert_eq!(next_state(GameState::Playing, Event::Pause), GameState::Paused);
    assert_eq!(next_state(GameState::Paused, Event::Resume), GameState::Playing);
    assert_eq!(next_state(GameState::Paused, Event::PlayerDied), GameState::Paused);
    assert_eq!(next_state(GameState::GameOver, Event::Restart), GameState::Playing);
    assert_eq!(next_state(GameState::GameOver, Event::Pause), GameState::GameOver);
}

#[test]
fn restart_keeps_the_starfield() {
    let mut g = Game::setup(settings(), one_level(10));
    g.handle(Event::Pause);
    let before = g.world.entities.len();
    g.run_frame(no_keys(), 16 * MS);
    assert_eq!(g.world.entities.len(), before);
    g.handle(Event::Resume);
    g.world.entities[0].body.health = Some(Health::new(0));
    g.world.entities[0].body.health_changed = true;
    let sounds = g.run_frame(no_keys(), 16 * MS);
    assert_eq!(sounds, vec![Sound::Explosion]);
    assert_eq!(g.state, GameState::GameOver);
    assert!(g.world.entities.iter().all(|e| e.body.kind != Kind::Player));
    g.handle(Event::Restart);
    assert_eq!(g.state, GameState::Playing);
    let stars = g.world.entities.iter().filter(|e| matches!(e.body.kind, Kind::Star(_))).count();
    assert_eq!(stars, STAR_COUNT as usize);
    assert_eq!(g.world.entities.len(), STAR_COUNT as usize + 1);
    assert_eq!(g.session, CurrentLevelBundle::new(&g.levels));
}

#[test]
fn health_bar_hearts() {
    assert!(heart_full(0, 1));
    assert!(!heart_full(1, 1));
    assert!(!heart_full(0, 0));
}

#[test]
fn explosion_outlives_its_loops_until_the_limit() {
    let s = settings();
    let mut w = world_of(vec![spawn_explosion(&s, Vec2::new(0, 0), 2)]);
    for _ in 0..23 {
        w.map_bodies(Step::Animate, s.window, 50 * MS);
        let mut c = Commands::new();
        w.collect(Rule::Finished, &s, &mut c);
        assert!(c.queue.is_empty());
    }
    w.map_bodies(Step::Animate, s.window, 50 * MS);
    let mut c = Commands::new();
    w.collect(Rule::Finished, &s, &mut c);
    assert_eq!(c.queue, vec![Command::Despawn(0)]);
}

#[test]
fn setup_has_one_player_and_stars() {
    let g = Game::setup(settings(), default_levels());
    let players = g.world.entities.iter().filter(|e| e.body.kind == Kind::Player).count();
    assert_eq!(players, 1);
    assert!(g.world.entities[1..].iter().all(|e| matches!(e.body.kind, Kind::Star(_))));
}

#[test]
fn diagonal_moves_stay_within_speed() {
    let c = compass();
    for mask in 0..16u32 {
        let k = Keys { left: mask & 1 != 0, right: mask & 2 != 0, up: mask & 4 != 0, down: mask & 8 != 0, slow: false, fire: false };
        let v = player_velocity(k, 6_000, &c);
        assert!(v.x * v.x + v.y * v.y <= 6_000 * 6_000);
    }
}

#[test]
fn restart_waits_when_identifiers_run_out() {
    let mut g = Game::setup(settings(), default_levels());
    g.world.entities[0].body.health = Some(Health::new(0));
    g.world.entities[0].body.health_changed = true;
    g.run_frame(no_keys(), MS);
    assert_eq!(g.state, GameState::GameOver);
    g.world.next_id = u64::MAX;
    g.handle(Event::Restart);
    assert_eq!(g.state, GameState::GameOver);
}
