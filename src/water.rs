//! The terrain generator: a chain of samples kept just wide enough to cover the
//! window as the world scrolls left, and the mesh rebuilt from it every frame.
use crate::geom::{clamp, clamp_spec, in_coord_range, Point, SURFACE_WIDTH, WINDOW_WIDTH};
use crate::mesh::{
    chain_fits, get_surface_verts, is_mesh_of, mesh_ok, x_increasing, Surface, SurfaceVerts,
};
use crate::random::RandomSource;
use vstd::prelude::*;

verus! {

/// Most samples the chain ever holds.
pub const CHAIN_LIMIT: usize = 32;

/// Farthest the world may have scrolled, in world units.
pub const SCROLL_LIMIT: i64 = 200_000_000_000;

/// Lowest terrain height above the window bottom.
pub const MIN_HEIGHT: i64 = 150_000;

/// Highest terrain height above the window bottom.
pub const MAX_HEIGHT: i64 = 400_000;

/// Height change of one step between consecutive samples.
pub const STEP_HEIGHT: i64 = 50_000;

/// A new sample was appended to the chain: `trigger` marks a flat one.
#[derive(Clone, Copy, Debug, PartialEq, Eq, Structural)]
pub struct SpawnEvent {
    pub trigger: bool,
    pub pos: Point,
}

pub open spec fn event_of(s: Surface) -> SpawnEvent {
    SpawnEvent { trigger: s.step == 0, pos: s.pos }
}

/// Consecutive samples are one surface width apart.
pub open spec fn fixed_step(s: Seq<Surface>) -> bool {
    forall|k: int| 0 <= k < s.len() ==> #[trigger] s[k].pos.x == s[0].pos.x + k * SURFACE_WIDTH
}

/// Every sample is valid and its step is -1, 0 or +1.
pub open spec fn samples_ok(s: Seq<Surface>) -> bool {
    forall|k: int| 0 <= k < s.len() ==> #[trigger] s[k].valid() && -1 <= s[k].step <= 1
}

/// Sample `t` follows `prev` in the chain: one surface width further right,
/// its height moved from `prev`'s by its step and held within the limits; it
/// was appended because `prev` had not reached the right edge under scroll `a`.
pub open spec fn grown_step(prev: Surface, t: Surface, a: int) -> bool {
    &&& t.pos.x == prev.pos.x + SURFACE_WIDTH
    &&& t.pos.y == clamp_spec(prev.pos.y + t.step * STEP_HEIGHT, MIN_HEIGHT as int, MAX_HEIGHT as int)
    &&& t.valid()
    &&& -1 <= t.step <= 1
    &&& prev.pos.x + a < WINDOW_WIDTH
}

/// The sample before `ap[j]`: `last` for the first.
pub open spec fn before_of(last: Surface, ap: Seq<Surface>, j: int) -> Surface {
    if j == 0 {
        last
    } else {
        ap[j - 1]
    }
}

/// `ap` are the samples appended after `last` under scroll `a`, in order.
pub open spec fn grown_from(last: Surface, ap: Seq<Surface>, a: int) -> bool {
    forall|j: int|
        0 <= j < ap.len() ==> #[trigger] grown_step(
            before_of(last, ap, j),
            ap[j],
            a,
        )
}

/// A sample stays in the chain under scroll `a` unless it has scrolled more
/// than one surface width past the left edge.
pub open spec fn kept_at(a: int) -> spec_fn(Surface) -> bool {
    |s: Surface| s.pos.x + a >= -SURFACE_WIDTH
}

pub struct Water {
    pub surfaces: Vec<Surface>,
    pub surface_verts: SurfaceVerts,
    /// Scroll offset of the last update: screen x of a sample is `arena_x + pos.x`.
    pub arena_x: i64,
}

impl Water {
    pub open spec fn wf(&self) -> bool {
        let s = self.surfaces@;
        &&& 1 <= s.len() <= CHAIN_LIMIT
        &&& fixed_step(s)
        &&& samples_ok(s)
        &&& -SCROLL_LIMIT <= self.arena_x <= 0
        &&& -SURFACE_WIDTH <= s[0].pos.x + self.arena_x <= 0
        &&& s.last().pos.x + self.arena_x < WINDOW_WIDTH + SURFACE_WIDTH
        &&& is_mesh_of(self.surface_verts, s, self.arena_x as int)
        &&& mesh_ok(&self.surface_verts)
    }

    /// The chain reaches the right edge of the window.
    pub open spec fn covered(&self) -> bool {
        self.surfaces@.last().pos.x + self.arena_x >= WINDOW_WIDTH
    }

    pub fn new() -> (r: Water)
        ensures
            r.wf(),
            r.arena_x == 0,
            r.surfaces@ == seq![Surface { pos: Point { x: 0, y: 0 }, step: 0, freq: 0, amplitude: 0 }],
    {
        let surfaces = vec![Surface::new()];
        let surface_verts = get_surface_verts(&surfaces, 0);
        proof {
            assert(x_increasing(surfaces@));
        }
        Water { surfaces, surface_verts, arena_x: 0 }
    }

    proof fn lemma_fits(s: Seq<Surface>, a: int)
        requires
            s.len() >= 1,
            fixed_step(s),
            samples_ok(s),
            -SCROLL_LIMIT <= a <= 0,
            -2 * SURFACE_WIDTH <= s[0].pos.x + a,
            s.last().pos.x + a < WINDOW_WIDTH + SURFACE_WIDTH,
        ensures
            chain_fits(s, a),
            x_increasing(s),
    {
        assert forall|k: int| 0 <= k < s.len() implies #[trigger] s[k].valid() && in_coord_range(
            s[k].pos.x + a,
        ) by {
            assert(s[k].pos.x == s[0].pos.x + k * SURFACE_WIDTH);
            assert(s[s.len() - 1].pos.x == s[0].pos.x + (s.len() - 1) * SURFACE_WIDTH);
        }
        assert forall|i: int, j: int| 0 <= i < j < s.len() implies s[i].pos.x < s[j].pos.x by {
            assert(s[i].pos.x == s[0].pos.x + i * SURFACE_WIDTH);
            assert(s[j].pos.x == s[0].pos.x + j * SURFACE_WIDTH);
        }
    }

    /// Scrolls the world to `arena_x`: drops the samples that have scrolled
    /// more than one surface width past the left edge, appends random samples
    /// after the last one until the chain reaches the right edge of the window
    /// (keeping those of them that are not already past the left edge), and
    /// rebuilds the mesh. Returns one event per appended sample, in order.
    pub fn update(&mut self, arena_x: i64, rng: &mut RandomSource) -> (events: Vec<SpawnEvent>)
        requires
            old(self).wf(),
            -SCROLL_LIMIT <= arena_x <= old(self).arena_x,
        ensures
            final(self).wf(),
            final(self).covered(),
            final(self).arena_x == arena_x,
            exists|ap: Seq<Surface>|
                {
                    &&& #[trigger] grown_from(old(self).surfaces@.last(), ap, arena_x as int)
                    &&& ap.len() == events@.len()
                    &&& forall|i: int| 0 <= i < ap.len() ==> #[trigger] events@[i] == event_of(ap[i])
                    &&& forall|i: int|
                        0 <= i < ap.len() ==> old(self).surfaces@.last().pos.x < #[trigger] ap[i].pos.x
                    &&& final(self).surfaces@ == (old(self).surfaces@ + ap).filter(
                        kept_at(arena_x as int),
                    )
                },
            events@.len() == 0 <==> old(self).surfaces@.last().pos.x + arena_x >= WINDOW_WIDTH,
            old(self).covered() && arena_x == old(self).arena_x ==> final(self).surfaces@ == old(
                self,
            ).surfaces@,
    {
        let ghost old_s = self.surfaces@;
        let ghost old_a = self.arena_x;
        let ghost pred = kept_at(arena_x as int);
        let n = self.surfaces.len();
        proof {
            assert(old_s[n - 1].pos.x == old_s[0].pos.x + (n - 1) * SURFACE_WIDTH);
        }
        let mut kept: Vec<Surface> = Vec::new();
        let ghost mut ext: Seq<Surface> = Seq::empty();
        let mut i: usize = 0;
        while i < n
            invariant
                old_s == self.surfaces@,
                n == old_s.len(),
                1 <= n <= CHAIN_LIMIT,
                i <= n,
                fixed_step(old_s),
                samples_ok(old_s),
                -SURFACE_WIDTH <= old_s[0].pos.x + old_a <= 0,
                old_s[n - 1].pos.x + old_a < WINDOW_WIDTH + SURFACE_WIDTH,
                -SCROLL_LIMIT <= arena_x <= old_a <= 0,
                pred == kept_at(arena_x as int),
                ext == old_s.subrange(0, i as int),
                kept@ == ext.filter(pred),
                Self::chain_ok(kept@, arena_x as int),
                i > 0 && pred(ext.last()) ==> kept@.len() > 0 && kept@.last() == ext.last(),
                kept@.len() > 0 ==> kept@.last() == ext.last(),
                (forall|k: int| 0 <= k < n ==> #[trigger] pred(old_s[k])) ==> kept@ == ext,
            decreases n - i,
        {
            let s = self.surfaces[i];
            proof {
                assert(s == old_s[i as int]);
                assert(samples_ok(old_s));
                assert(old_s[i as int].valid());
                assert(-1 <= old_s[i as int].step <= 1);
                assert(s.pos.x == old_s[0].pos.x + i * SURFACE_WIDTH);
                if i > 0 {
                    assert(ext.last() == old_s[i - 1]);
                    assert(old_s[i - 1].pos.x == old_s[0].pos.x + (i - 1) * SURFACE_WIDTH);
                }
                ext.lemma_filter_push(s, pred);
                assert(old_s.subrange(0, i + 1) =~= ext.push(s));
            }
            if s.pos.x + arena_x >= -SURFACE_WIDTH {
                proof {
                    Self::lemma_chain_push(kept@, s, arena_x as int);
                }
                kept.push(s);
            }
            proof {
                ext = ext.push(s);
            }
            i = i + 1;
        }
        let mut last = self.surfaces[n - 1];
        let mut events: Vec<SpawnEvent> = Vec::new();
        let ghost mut ap: Seq<Surface> = Seq::empty();
        proof {
            assert(ext =~= old_s + ap);
            assert(last == old_s.last());
        }
        while last.pos.x + arena_x < WINDOW_WIDTH
            invariant
                old_s.len() == n,
                n >= 1,
                -SCROLL_LIMIT <= arena_x <= old_a <= 0,
                pred == kept_at(arena_x as int),
                ext == old_s + ap,
                last == ext.last(),
                last.valid(),
                last.pos.x + arena_x < WINDOW_WIDTH + SURFACE_WIDTH,
                grown_from(old_s.last(), ap, arena_x as int),
                events@.len() == ap.len(),
                forall|j: int| 0 <= j < ap.len() ==> #[trigger] events@[j] == event_of(ap[j]),
                kept@ == ext.filter(pred),
                Self::chain_ok(kept@, arena_x as int),
                pred(last) ==> kept@.len() > 0 && kept@.last() == last,
                kept@.len() > 0 ==> kept@.last() == last,
                ap.len() == 0 ==> last == old_s.last(),
                last.pos.x >= old_s.last().pos.x,
                forall|j: int| 0 <= j < ap.len() ==> old_s.last().pos.x < #[trigger] ap[j].pos.x,
            decreases WINDOW_WIDTH + SURFACE_WIDTH - (last.pos.x + arena_x),
        {
            let step = rng.range(-1, 2);
            let y = clamp(last.pos.y + step * STEP_HEIGHT, MIN_HEIGHT, MAX_HEIGHT);
            let freq = rng.range(0, 1000);
            let amplitude = rng.range(0, 1000);
            let sample = Surface { pos: Point { x: last.pos.x + SURFACE_WIDTH, y }, step, freq, amplitude };
            events.push(SpawnEvent { trigger: step == 0, pos: sample.pos });
            proof {
                ext.lemma_filter_push(sample, pred);
            }
            if sample.pos.x + arena_x >= -SURFACE_WIDTH {
                proof {
                    Self::lemma_chain_push(kept@, sample, arena_x as int);
                }
                kept.push(sample);
            }
            proof {
                let ap2 = ap.push(sample);
                assert forall|j: int| 0 <= j < ap2.len() implies #[trigger] grown_step(
                    before_of(old_s.last(), ap2, j),
                    ap2[j],
                    arena_x as int,
                ) by {
                    if j < ap.len() {
                        assert(grown_step(
                            before_of(old_s.last(), ap, j),
                            ap[j],
                            arena_x as int,
                        ));
                    } else if j > 0 {
                        assert(ap2[j - 1] == ap.last());
                    }
                }
                assert((old_s + ap).push(sample) =~= old_s + ap2);
                ext = ext.push(sample);
                ap = ap2;
            }
            last = sample;
        }
        proof {
            let s = kept@;
            assert(pred(last));
            assert(s.last().pos.x == s[0].pos.x + (s.len() - 1) * SURFACE_WIDTH);
            Self::lemma_fits(s, arena_x as int);
            if old_s.last().pos.x + old_a >= WINDOW_WIDTH && arena_x == old_a {
                assert forall|k: int| 0 <= k < n implies #[trigger] pred(old_s[k]) by {
                    assert(old_s[k].pos.x == old_s[0].pos.x + k * SURFACE_WIDTH);
                }
                if ap.len() > 0 {
                    assert(grown_step(before_of(old_s.last(), ap, 0), ap[0], arena_x as int));
                }
                assert(old_s + ap =~= old_s);
            }
            if ap.len() > 0 {
                assert(grown_step(before_of(old_s.last(), ap, 0), ap[0], arena_x as int));
            }
        }
        self.surfaces = kept;
        self.arena_x = arena_x;
        self.surface_verts = get_surface_verts(&self.surfaces, arena_x);
        events
    }

    /// A kept chain under scroll `a`: fixed step, valid samples, every one
    /// between one surface width left of the window and one right of it, and
    /// the first at or left of the window's left edge.
    pub open spec fn chain_ok(s: Seq<Surface>, a: int) -> bool {
        &&& fixed_step(s)
        &&& samples_ok(s)
        &&& forall|k: int|
            0 <= k < s.len() ==> -SURFACE_WIDTH <= #[trigger] s[k].pos.x + a < WINDOW_WIDTH
                + SURFACE_WIDTH
        &&& s.len() > 0 ==> s[0].pos.x + a <= 0
    }

    proof fn lemma_chain_push(s: Seq<Surface>, t: Surface, a: int)
        requires
            Self::chain_ok(s, a),
            t.valid() && -1 <= t.step <= 1,
            -SURFACE_WIDTH <= t.pos.x + a < WINDOW_WIDTH + SURFACE_WIDTH,
            s.len() > 0 ==> t.pos.x == s.last().pos.x + SURFACE_WIDTH,
            s.len() == 0 ==> t.pos.x + a <= 0,
        ensures
            Self::chain_ok(s.push(t), a),
    {
        let s2 = s.push(t);
        if s.len() > 0 {
            assert(s.last().pos.x == s[0].pos.x + (s.len() - 1) * SURFACE_WIDTH);
        }
        assert forall|k: int| 0 <= k < s2.len() implies #[trigger] s2[k].pos.x == s2[0].pos.x + k
            * SURFACE_WIDTH by {
            if k < s.len() {
                assert(s[k].pos.x == s[0].pos.x + k * SURFACE_WIDTH);
            }
        }
        assert forall|k: int| 0 <= k < s2.len() implies #[trigger] s2[k].valid() && -1 <= s2[k].step
            <= 1 by {
            if k < s.len() {
                assert(s[k].valid());
            }
        }
        assert forall|k: int| 0 <= k < s2.len() implies -SURFACE_WIDTH <= #[trigger] s2[k].pos.x + a
            < WINDOW_WIDTH + SURFACE_WIDTH by {
            if k < s.len() {
                assert(-SURFACE_WIDTH <= s[k].pos.x + a);
            }
        }
    }
}

} // verus!
