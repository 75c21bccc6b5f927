//! The entity store, deferred commands and the per-frame systems.

use vstd::prelude::*;
use crate::bullet::BulletSprites;
use crate::geometry::{Compass, SpriteScale, WindowSize};

verus! {

/// Configuration read by every system: the viewport, the sprite scale, the
/// direction table and the projectile sprite extents.
#[derive(Debug)]
pub struct Settings {
    pub window: WindowSize,
    pub scale: SpriteScale,
    pub compass: Compass,
    pub bullets: BulletSprites,
    pub stars: crate::starfield::StarSprites,
}

impl Settings {
    pub open spec fn wf(&self) -> bool {
        &&& self.window.wf()
        &&& self.scale.wf()
        &&& self.compass.wf()
        &&& self.bullets.wf()
        &&& self.stars.wf()
    }
}


/// An entity: a unique identifier and its components.
#[derive(Clone, Copy, Debug, PartialEq, Eq, Structural)]
pub struct Entity {
    pub id: u64,
    pub body: crate::body::Body,
}

/// A structural change or an effect requested by a system; it takes effect
/// when the queue is applied.
#[derive(Clone, Copy, Debug, PartialEq, Eq, Structural)]
pub enum Command {
    Spawn(crate::body::Body),
    Despawn(u64),
    Play(crate::body::Sound),
}

/// Commands in the order they were requested.
#[derive(Debug)]
pub struct Commands {
    pub queue: Vec<Command>,
}

impl Commands {
    pub fn new() -> (r: Commands)
        ensures
            r.queue@ == Seq::<Command>::empty(),
            spawns_wf(r.queue@),
    {
        Commands { queue: Vec::new() }
    }

    /// Requests a new entity with `body`.
    pub fn spawn(&mut self, body: crate::body::Body)
        requires
            body.wf(),
        ensures
            final(self).queue@ == old(self).queue@.push(Command::Spawn(body)),
            spawns_wf(old(self).queue@) ==> spawns_wf(final(self).queue@),
    {
        self.queue.push(Command::Spawn(body));
        assert(self.queue@.last() == Command::Spawn(body));
    }

    /// Requests the removal of entity `id`.
    pub fn despawn(&mut self, id: u64)
        ensures
            final(self).queue@ == old(self).queue@.push(Command::Despawn(id)),
            spawns_wf(old(self).queue@) ==> spawns_wf(final(self).queue@),
    {
        self.queue.push(Command::Despawn(id));
    }

    /// Requests a sound cue.
    pub fn play(&mut self, sound: crate::body::Sound)
        ensures
            final(self).queue@ == old(self).queue@.push(Command::Play(sound)),
            spawns_wf(old(self).queue@) ==> spawns_wf(final(self).queue@),
    {
        self.queue.push(Command::Play(sound));
    }
}

/// All live entities, in order of creation.
#[derive(Debug)]
pub struct World {
    pub entities: Vec<Entity>,
    pub next_id: u64,
}

/// Identifiers strictly increase along `s` and stay below `next`.
pub open spec fn ids_ordered(s: Seq<Entity>, next: u64) -> bool {
    &&& forall|i: int, j: int| 0 <= i < j < s.len() ==> s[i].id < s[j].id
    &&& forall|i: int| 0 <= i < s.len() ==> #[trigger] s[i].id < next
}

/// The queue asks for the removal of `id`.
pub open spec fn despawned(q: Seq<Command>, id: u64) -> bool {
    exists|k: int| 0 <= k < q.len() && q[k] == Command::Despawn(id)
}

/// The entities of `s` that the queue `q` does not remove, in order.
pub open spec fn kept(s: Seq<Entity>, q: Seq<Command>) -> Seq<Entity>
    decreases s.len(),
{
    if s.len() == 0 {
        s
    } else {
        let k = kept(s.drop_last(), q);
        if despawned(q, s.last().id) {
            k
        } else {
            k.push(s.last())
        }
    }
}

/// The entities that the spawn commands of `q` create, with identifiers
/// from `next` on, and the next free identifier after them. Once the
/// identifiers run out, further spawns are dropped.
pub open spec fn spawned(q: Seq<Command>, next: u64) -> (Seq<Entity>, u64)
    decreases q.len(),
{
    if q.len() == 0 {
        (Seq::empty(), next)
    } else {
        let (s, n) = spawned(q.drop_last(), next);
        match q.last() {
            Command::Spawn(b) => if n < u64::MAX {
                (s.push(Entity { id: n, body: b }), (n + 1) as u64)
            } else {
                (s, n)
            },
            _ => (s, n),
        }
    }
}

/// The sound cues that `q` requests, in order.
pub open spec fn sounds(q: Seq<Command>) -> Seq<crate::body::Sound>
    decreases q.len(),
{
    if q.len() == 0 {
        Seq::empty()
    } else {
        match q.last() {
            Command::Play(s) => sounds(q.drop_last()).push(s),
            _ => sounds(q.drop_last()),
        }
    }
}

/// Every body of `s` is well formed.
pub open spec fn bodies_wf(s: Seq<Entity>) -> bool {
    forall|i: int| 0 <= i < s.len() ==> (#[trigger] s[i]).body.wf()
}

/// Every spawn command of `q` carries a well-formed body.
pub open spec fn spawns_wf(q: Seq<Command>) -> bool {
    forall|k: int| 0 <= k < q.len() ==> (#[trigger] q[k] matches Command::Spawn(b) ==> b.wf())
}

pub proof fn lemma_kept(s: Seq<Entity>, q: Seq<Command>, next: u64)
    requires
        ids_ordered(s, next),
    ensures
        ids_ordered(kept(s, q), next),
        forall|i: int| 0 <= i < kept(s, q).len() ==> s.contains(#[trigger] kept(s, q)[i]),
    decreases s.len(),
{
    if s.len() > 0 {
        let t = s.drop_last();
        assert(ids_ordered(t, next));
        lemma_kept(t, q, next);
        let k = kept(t, q);
        assert forall|i: int| 0 <= i < k.len() implies k[i].id < s.last().id by {
            assert(t.contains(k[i]));
            let j = choose|j: int| 0 <= j < t.len() && t[j] == k[i];
            assert(s[j] == t[j]);
        }
        assert forall|i: int| 0 <= i < kept(s, q).len() implies s.contains(
            #[trigger] kept(s, q)[i],
        ) by {
            if i < k.len() {
                assert(t.contains(k[i]));
                let j = choose|j: int| 0 <= j < t.len() && t[j] == k[i];
                assert(s[j] == t[j]);
            } else {
                assert(s[s.len() - 1] == s.last());
            }
        }
    }
}

proof fn lemma_kept_wf(s: Seq<Entity>, q: Seq<Command>, next: u64)
    requires
        ids_ordered(s, next),
        bodies_wf(s),
    ensures
        bodies_wf(kept(s, q)),
{
    lemma_kept(s, q, next);
    assert forall|i: int| 0 <= i < kept(s, q).len() implies (#[trigger] kept(s, q)[i]).body.wf() by {
        assert(s.contains(kept(s, q)[i]));
    }
}

proof fn lemma_spawned(q: Seq<Command>, next: u64)
    requires
        spawns_wf(q),
    ensures
        spawned(q, next).1 >= next,
        forall|i: int, j: int|
            0 <= i < j < spawned(q, next).0.len() ==> spawned(q, next).0[i].id
                < spawned(q, next).0[j].id,
        forall|i: int|
            0 <= i < spawned(q, next).0.len() ==> next <= #[trigger] spawned(q, next).0[i].id
                < spawned(q, next).1,
        bodies_wf(spawned(q, next).0),
    decreases q.len(),
{
    if q.len() > 0 {
        let t = q.drop_last();
        assert forall|k: int| 0 <= k < t.len() implies (#[trigger] t[k] matches Command::Spawn(
            b,
        ) ==> b.wf()) by {
            assert(t[k] == q[k]);
        }
        lemma_spawned(t, next);
        assert(q.last() == q[q.len() - 1]);
    }
}

impl World {
    pub open spec fn wf(&self) -> bool {
        ids_ordered(self.entities@, self.next_id) && bodies_wf(self.entities@)
    }

    /// An empty world.
    pub fn new() -> (r: World)
        ensures
            r.entities@ == Seq::<Entity>::empty(),
            r.next_id == 0,
            r.wf(),
    {
        World { entities: Vec::new(), next_id: 0 }
    }

    /// Applies the queued commands: the entities that a despawn names are
    /// removed, then each spawn adds an entity with a fresh identifier. The
    /// sound cues are handed back in order.
    pub fn apply(&mut self, commands: &Commands) -> (r: Vec<crate::body::Sound>)
        requires
            old(self).wf(),
            spawns_wf(commands.queue@),
        ensures
            final(self).wf(),
            final(self).entities@ == kept(old(self).entities@, commands.queue@) + spawned(
                commands.queue@,
                old(self).next_id,
            ).0,
            final(self).next_id == spawned(commands.queue@, old(self).next_id).1,
            r@ == sounds(commands.queue@),
    {
        let ghost pre = self.entities@;
        let ghost q = commands.queue@;
        let mut out: Vec<Entity> = Vec::new();
        let mut i: usize = 0;
        while i < self.entities.len()
            invariant
                self.entities@ == pre,
                q == commands.queue@,
                i <= pre.len(),
                out@ == kept(pre.take(i as int), q),
            decreases pre.len() - i,
        {
            let e = self.entities[i];
            let mut gone = false;
            let mut k: usize = 0;
            while k < commands.queue.len()
                invariant
                    q == commands.queue@,
                    k <= q.len(),
                    gone <==> exists|m: int| 0 <= m < k && q[m] == Command::Despawn(e.id),
                decreases q.len() - k,
            {
                if commands.queue[k] == Command::Despawn(e.id) {
                    gone = true;
                }
                k = k + 1;
            }
            assert(pre.take(i + 1).drop_last() == pre.take(i as int));
            assert(pre.take(i + 1).last() == e);
            if !gone {
                out.push(e);
            }
            i = i + 1;
        }
        assert(pre.take(pre.len() as int) == pre);
        let ghost base = out@;
        let mut next = self.next_id;
        let mut sounds_out: Vec<crate::body::Sound> = Vec::new();
        let mut k: usize = 0;
        while k < commands.queue.len()
            invariant
                q == commands.queue@,
                k <= q.len(),
                base == kept(pre, q),
                out@ == base + spawned(q.take(k as int), self.next_id).0,
                next == spawned(q.take(k as int), self.next_id).1,
                sounds_out@ == sounds(q.take(k as int)),
            decreases q.len() - k,
        {
            assert(q.take(k + 1).drop_last() == q.take(k as int));
            assert(q.take(k + 1).last() == q[k as int]);
            match commands.queue[k] {
                Command::Spawn(b) => {
                    if next < u64::MAX {
                        out.push(Entity { id: next, body: b });
                        next = next + 1;
                    }
                },
                Command::Play(s) => {
                    sounds_out.push(s);
                },
                Command::Despawn(_) => {},
            }
            k = k + 1;
        }
        assert(q.take(q.len() as int) == q);
        proof {
            lemma_kept(pre, q, self.next_id);
            lemma_kept_wf(pre, q, self.next_id);
            lemma_spawned(q, self.next_id);
            let a = kept(pre, q);
            let b = spawned(q, self.next_id).0;
            assert forall|x: int, y: int| 0 <= x < y < out@.len() implies out@[x].id
                < out@[y].id by {
                if y >= a.len() && x < a.len() {
                    assert(b[y - a.len()] == out@[y]);
                }
            }
            assert forall|x: int| 0 <= x < out@.len() implies (#[trigger] out@[x]).body.wf() by {
                if x >= a.len() {
                    assert(b[x - a.len()] == out@[x]);
                }
            }
        }
        self.entities = out;
        self.next_id = next;
        sounds_out
    }
}


/// `post` keeps the identifiers of `pre`, entry by entry, and every body of
/// `post` is well formed: the world stays well formed.
pub proof fn lemma_same_ids(pre: Seq<Entity>, post: Seq<Entity>, next: u64)
    requires
        ids_ordered(pre, next),
        pre.len() == post.len(),
        forall|i: int| 0 <= i < pre.len() ==> #[trigger] post[i].id == pre[i].id,
        bodies_wf(post),
    ensures
        ids_ordered(post, next),
{
    assert forall|x: int, y: int| 0 <= x < y < post.len() implies post[x].id < post[y].id by {
        assert(post[x].id == pre[x].id);
        assert(post[y].id == pre[y].id);
    }
    assert forall|x: int| 0 <= x < post.len() implies #[trigger] post[x].id < next by {
        assert(post[x].id == pre[x].id);
    }
}

} // verus!
