//! The scrolling starfield behind the play area.

use vstd::prelude::*;
use crate::body::{Body, Kind, StarSize};
use crate::geometry::{SpriteSize, Vec2, LIMIT};
use crate::random::{pick_weighted, random_range};
use crate::world::{spawns_wf, Command, Commands, Settings};

verus! {

/// Stars in the field.
pub const STAR_COUNT: u32 = 200;

/// Sprite extents of the star sizes.
#[derive(Clone, Copy, Debug, PartialEq, Eq, Structural)]
pub struct StarSprites {
    pub small: SpriteSize,
    pub medium: SpriteSize,
    pub large: SpriteSize,
}

impl StarSprites {
    pub open spec fn wf(self) -> bool {
        self.small.wf() && self.medium.wf() && self.large.wf()
    }

    pub open spec fn of(self, s: StarSize) -> SpriteSize {
        match s {
            StarSize::Small => self.small,
            StarSize::Medium => self.medium,
            StarSize::Large => self.large,
        }
    }
}

/// The star that `spawn_star` makes.
pub open spec fn star_spec(s: Settings, size: StarSize, position: Vec2, speed: i64) -> Body {
    Body {
        velocity: Some(Vec2 { x: 0, y: (-speed) as i64 }),
        ..Body::bare(Kind::Star(size), position, 0, s.stars.of(size))
    }
}

/// A star of `size` at `position`, falling at `speed`.
pub fn spawn_star(settings: &Settings, size: StarSize, position: Vec2, speed: i64) -> (r: Body)
    requires
        settings.wf(),
        position.wf(),
        0 <= speed <= LIMIT,
    ensures
        r == star_spec(*settings, size, position, speed),
        r.wf(),
{
    let sprite = match size {
        StarSize::Small => settings.stars.small,
        StarSize::Medium => settings.stars.medium,
        StarSize::Large => settings.stars.large,
    };
    let mut b = Body::new(Kind::Star(size), position, 0, sprite);
    b.velocity = Some(Vec2::new(0, -speed));
    b
}

/// `c` spawns a star somewhere in the window, falling at one to nine units
/// per tick.
pub open spec fn is_star_spawn(s: Settings, c: Command) -> bool {
    exists|size: StarSize, p: Vec2, speed: i64|
        1000 <= speed < 9000 && -(s.window.width / 2) <= p.x <= s.window.width / 2
            && -(s.window.height / 2) <= p.y <= s.window.height / 2
            && c == Command::Spawn(#[trigger] star_spec(s, size, p, speed))
}

/// A random offset in `[-n/2, n - n/2)`, or 0 for `n == 0`.
fn centred(n: i64) -> (r: i64)
    requires
        0 <= n <= LIMIT,
    ensures
        n == 0 ==> r == 0,
        n > 0 ==> -(n / 2) <= r < n - n / 2,
{
    if n == 0 {
        0
    } else {
        random_range(0, n as u64) as i64 - n / 2
    }
}

/// Queues the starfield: each star's size is drawn by weight (small three
/// times as often as large, medium twice), its position anywhere in the
/// window and its speed from one to nine units per tick.
pub fn setup_starfield(settings: &Settings, commands: &mut Commands)
    requires
        settings.wf(),
    ensures
        final(commands).queue@.len() == old(commands).queue@.len() + STAR_COUNT,
        forall|k: int| 0 <= k < old(commands).queue@.len() ==> #[trigger] final(commands).queue@[k] == old(commands).queue@[k],
        forall|k: int|
            old(commands).queue@.len() <= k < final(commands).queue@.len() ==> is_star_spawn(*settings, #[trigger] final(commands).queue@[k]),
        spawns_wf(old(commands).queue@) ==> spawns_wf(final(commands).queue@),
{
    let weights: Vec<u32> = vec![3, 2, 1];
    let sizes: Vec<StarSize> = vec![StarSize::Small, StarSize::Medium, StarSize::Large];
    proof {
        assert(crate::random::weight_sum(weights@, 0) == 0);
        assert(crate::random::weight_sum(weights@, 1) == 3);
        assert(crate::random::weight_sum(weights@, 2) == 5);
        assert(crate::random::weight_sum(weights@, 3) == 6);
        assert(weights@[0] > 0);
    }
    let mut n: u32 = 0;
    while n < STAR_COUNT
        invariant
            settings.wf(),
            weights@ == seq![3u32, 2, 1],
            sizes@.len() == 3,
            crate::random::weight_sum(weights@, 3) == 6,
            crate::random::has_positive(weights@),
            n <= STAR_COUNT,
            commands.queue@.len() == old(commands).queue@.len() + n,
            forall|k: int| 0 <= k < old(commands).queue@.len() ==> #[trigger] commands.queue@[k] == old(commands).queue@[k],
            forall|k: int|
                old(commands).queue@.len() <= k < commands.queue@.len() ==> is_star_spawn(*settings, #[trigger] commands.queue@[k]),
            spawns_wf(old(commands).queue@) ==> spawns_wf(commands.queue@),
        decreases STAR_COUNT - n,
    {
        let k = pick_weighted(&weights).unwrap();
        let size = sizes[k];
        let x = centred(settings.window.width);
        let y = centred(settings.window.height);
        let speed = random_range(1000, 9000) as i64;
        let star = spawn_star(settings, size, Vec2::new(x, y), speed);
        commands.spawn(star);
        proof {
            let last = commands.queue@.len() - 1;
            assert(commands.queue@[last] == Command::Spawn(star_spec(*settings, size, Vec2 { x, y }, speed)));
            assert(is_star_spawn(*settings, commands.queue@[last]));
        }
        n = n + 1;
    }
}

} // verus!
