//! A particle-burst emitter: spawns up to a fixed number of bubbles on a random
//! cadence, lets each rise until it breaks the surface, then shrinks it away,
//! and finishes once the quota is spent and no bubble is left.
use crate::entity::{unfinished, Entity, EntityManager, Slot};
use crate::geom::{
    advance_clock, clamp_coord, clamp_spec, clamp_vel, clock_add, tdiv, travel, travel_spec,
    Point, CLOCK_LIMIT, COORD_LIMIT, MAX_DT, VEL_LIMIT,
};
use crate::mesh::{get_surface_verts_index, is_surface_index, mesh_ok, SurfaceVerts};
use crate::random::RandomSource;
use crate::trig::{cos_milli, cos_spec, sin_milli, sin_spec};
use vstd::prelude::*;

verus! {

/// Size lost per frame by a bubble that has surfaced.
pub const SHRINK: i64 = 100;

/// Size below which a surfaced bubble is gone.
pub const SIZE_FLOOR: i64 = 1000;

/// Upward acceleration of a rising bubble, in world units per second squared.
pub const BUOYANCY: i64 = -40_000;

/// Vertical launch speed of a new bubble, in world units per second.
pub const LAUNCH_VY: i64 = -100_000;

/// Peak horizontal wobble speed, in world units per second.
pub const WOBBLE: i64 = 40_000;

/// Fewest microseconds between two spawns.
pub const SPAWN_GAP: i64 = 100_000;

/// One bubble. `dt0` is the emitter time at which it starts to rise; zero
/// marks a bubble that has surfaced and is shrinking.
#[derive(Clone, Copy, Debug, PartialEq, Eq, Structural)]
pub struct Bubble {
    pub pos: Point,
    pub size: i64,
    pub ax: i64,
    pub ay: i64,
    pub vx: i64,
    pub vy: i64,
    pub dt0: i64,
    pub dt: i64,
}

impl Bubble {
    pub open spec fn wf(self) -> bool {
        &&& self.pos.bounded()
        &&& 0 <= self.size <= COORD_LIMIT
        &&& -VEL_LIMIT <= self.ax <= VEL_LIMIT
        &&& -VEL_LIMIT <= self.ay <= VEL_LIMIT
        &&& -VEL_LIMIT <= self.vx <= VEL_LIMIT
        &&& -VEL_LIMIT <= self.vy <= VEL_LIMIT
        &&& 0 <= self.dt0 <= 2 * CLOCK_LIMIT
        &&& 0 <= self.dt <= CLOCK_LIMIT
    }

    pub open spec fn retiring(self) -> bool {
        self.dt0 == 0
    }

    /// A surfaced bubble one frame later.
    pub open spec fn shrunk(self) -> Bubble {
        Bubble {
            size: if self.size >= SHRINK {
                (self.size - SHRINK) as i64
            } else {
                0
            },
            ..self
        }
    }

    /// A surfaced bubble after a frame of `dt` microseconds: it shrinks in
    /// every frame of positive length, and not at all in a zero-length one.
    pub open spec fn faded(self, dt: int) -> Bubble {
        if dt == 0 {
            self
        } else {
            self.shrunk()
        }
    }

    /// After a frame of `dt` microseconds the bubble still keeps its emitter alive.
    pub open spec fn keeps_alive(self, dt: int) -> bool {
        !self.retiring() || self.faded(dt).size >= SIZE_FLOOR
    }

    /// Horizontal wobble speed at age `age`: `sin(2 age) cos(3 age) * 40` pixels per second.
    pub open spec fn wobble(age: int) -> int {
        tdiv(sin_spec(tdiv(age * 2, 1000)) * cos_spec(tdiv(age * 3, 1000)) * WOBBLE, 1_000_000)
    }

    /// A rising bubble moved through one frame of `dt` microseconds, before
    /// the test against the surface.
    #[verifier::opaque]
    pub open spec fn moved(self, dt: int) -> Bubble {
        let t = clock_add(self.dt as int, dt);
        let age = t - self.dt0;
        let vx_next = clamp_spec(self.vx + travel_spec(self.ax as int, dt), -VEL_LIMIT, VEL_LIMIT as int);
        let vy_next = clamp_spec(self.vy + travel_spec(self.ay as int, dt), -VEL_LIMIT, VEL_LIMIT as int);
        let x = clamp_spec(
            self.pos.x + travel_spec(tdiv(self.vx + vx_next, 2) + Bubble::wobble(age), dt),
            -COORD_LIMIT,
            COORD_LIMIT as int,
        );
        let y = clamp_spec(
            self.pos.y + travel_spec(tdiv(self.vy + vy_next, 2), dt),
            -COORD_LIMIT,
            COORD_LIMIT as int,
        );
        Bubble {
            pos: Point { x: x as i64, y: y as i64 },
            vx: vx_next as i64,
            vy: vy_next as i64,
            dt: t as i64,
            ..self
        }
    }
}

fn wobble_exec(age: i64) -> (r: i64)
    requires
        -3 * CLOCK_LIMIT <= age <= 3 * CLOCK_LIMIT,
    ensures
        r == Bubble::wobble(age as int),
        -WOBBLE <= r <= WOBBLE,
{
    let s = sin_milli(age * 2 / 1000);
    let c = cos_milli(age * 3 / 1000);
    proof {
        assert(-1_000_000 <= s * c <= 1_000_000) by (nonlinear_arith)
            requires
                -1000 <= s <= 1000,
                -1000 <= c <= 1000,
        ;
        assert(-WOBBLE * 1_000_000 <= s * c * WOBBLE <= WOBBLE * 1_000_000) by (nonlinear_arith)
            requires
                -1_000_000 <= s * c <= 1_000_000,
        ;
        let p = s * c * WOBBLE;
        if p >= 0 {
            vstd::arithmetic::div_mod::lemma_div_is_ordered(p, WOBBLE * 1_000_000, 1_000_000);
        } else {
            vstd::arithmetic::div_mod::lemma_div_is_ordered(-p, WOBBLE * 1_000_000, 1_000_000);
        }
    }
    s * c * WOBBLE / 1_000_000
}

#[verifier::rlimit(50)]
fn move_bubble(el: Bubble, dt: i64) -> (r: Bubble)
    requires
        el.wf(),
        0 <= dt <= MAX_DT,
    ensures
        r.wf(),
        r == el.moved(dt as int),
        r.dt0 == el.dt0,
        r.size == el.size,
{
    proof {
        reveal(Bubble::moved);
    }
    let t = advance_clock(el.dt, dt);
    let w = wobble_exec(t - el.dt0);
    let vx_next = clamp_vel(el.vx + travel(el.ax, dt));
    let x = clamp_coord(el.pos.x + travel((el.vx + vx_next) / 2 + w, dt));
    let vy_next = clamp_vel(el.vy + travel(el.ay, dt));
    let y = clamp_coord(el.pos.y + travel((el.vy + vy_next) / 2, dt));
    Bubble { pos: Point { x, y }, vx: vx_next, vy: vy_next, dt: t, ..el }
}

/// Moves a rising bubble through one frame and marks it surfaced once it is
/// above the terrain surface at its new x.
fn step_rising(el: Bubble, surface_verts: &SurfaceVerts, dt: i64) -> (r: Bubble)
    requires
        el.wf(),
        !el.retiring(),
        mesh_ok(surface_verts),
        0 <= dt <= MAX_DT,
    ensures
        r.wf(),
        r.size == el.size,
        Bubbles::rose(el, r, dt as int, surface_verts.layer_a@),
{
    let ghost e0 = el;
    let mut el = move_bubble(el, dt);
    let ghost m = el;
    let index = get_surface_verts_index(surface_verts, el.pos.x);
    if el.pos.y < surface_verts.layer_a[index].y {
        el.dt0 = 0;
    }
    assert(is_surface_index(surface_verts.layer_a@, m.pos.x as int, index as int));
    assert(m == e0.moved(dt as int));
    proof {
        reveal(Bubbles::rose);
    }
    el
}

pub struct Bubbles {
    pub pos: Point,
    /// The quota: how many bubbles this emitter spawns in all.
    pub num: usize,
    /// Every bubble spawned so far, in order.
    pub els: Vec<Bubble>,
    /// The emitter's clock, in microseconds.
    pub dt: i64,
    /// Clock time of the next spawn.
    pub next_dt: i64,
    pub finished: bool,
}

impl Bubbles {
    pub open spec fn wf(&self) -> bool {
        &&& self.pos.bounded()
        &&& self.els@.len() <= self.num
        &&& forall|i: int| 0 <= i < self.els@.len() ==> (#[trigger] self.els@[i]).wf()
        &&& 0 <= self.dt <= CLOCK_LIMIT
        &&& 0 <= self.next_dt <= 2 * CLOCK_LIMIT
        &&& forall|i: int|
            0 <= i < self.els@.len() && !(#[trigger] self.els@[i]).retiring() ==> self.els@[i].size
                >= SIZE_FLOOR
        &&& !self.finished ==> self.els@.len() < self.num || exists|i: int|
            0 <= i < self.els@.len() && (#[trigger] self.els@[i]).size >= SIZE_FLOOR
    }

    /// What one `update` guarantees of the emitter before (`a`) and after (`b`)
    /// it, randomness aside.
    pub open spec fn update_post(a: Bubbles, b: Bubbles, dt: int, surface: Seq<Point>) -> bool {
        if a.finished {
            b == a
        } else {
            &&& b.pos == a.pos
            &&& b.num == a.num
            &&& b.dt == clock_add(a.dt as int, dt)
            &&& b.els@.len() == (if a.els@.len() < a.num && a.next_dt <= b.dt {
                a.els@.len() + 1
            } else {
                a.els@.len() + 0
            })
            &&& b.els@.len() > a.els@.len() ==> {
                &&& Bubbles::spawned(b.els@.last(), a.pos, b.dt as int)
                &&& b.dt + SPAWN_GAP <= b.next_dt < b.dt + 2 * SPAWN_GAP
            }
            &&& b.els@.len() == a.els@.len() ==> b.next_dt == a.next_dt
            &&& forall|i: int|
                0 <= i < a.els@.len() && (#[trigger] a.els@[i]).retiring() ==> b.els@[i]
                    == a.els@[i].faded(dt)
            &&& forall|i: int|
                0 <= i < a.els@.len() && !(#[trigger] a.els@[i]).retiring() ==> Bubbles::rose(
                    a.els@[i],
                    b.els@[i],
                    dt,
                    surface,
                )
            &&& b.finished == (a.els@.len() >= a.num && forall|i: int|
                0 <= i < a.els@.len() ==> !(#[trigger] a.els@[i]).keeps_alive(dt))
        }
    }

    /// Rising bubble `a` became `b` over a frame of `dt`: it moved, and it is
    /// marked surfaced exactly when its new height is above the terrain
    /// surface at its new x.
    #[verifier::opaque]
    pub open spec fn rose(a: Bubble, b: Bubble, dt: int, surface: Seq<Point>) -> bool {
        let m = a.moved(dt);
        &&& b == m || b == (Bubble { dt0: 0, ..m })
        &&& exists|k: int|
            is_surface_index(surface, m.pos.x as int, k) && (b.retiring() <==> m.pos.y < surface[k].y)
    }

    /// A bubble just spawned at `pos` when the emitter clock read `clock`:
    /// random size and start delay, launched downward, buoyant.
    pub open spec fn spawned(el: Bubble, pos: Point, clock: int) -> bool {
        &&& el.pos == pos
        &&& 2000 <= el.size < 10_000
        &&& el.ax == 0 && el.ay == BUOYANCY
        &&& el.vx == 0 && el.vy == LAUNCH_VY
        &&& clock <= el.dt0 < clock + 2_000_000
        &&& el.dt == 0
    }

    /// A new emitter at `pos` with a quota of `num` bubbles.
    pub open spec fn fresh_at(b: Bubbles, num: usize, pos: Point) -> bool {
        &&& b.pos == pos
        &&& b.num == num
        &&& b.els@.len() == 0
        &&& b.dt == 0 && b.next_dt == 0
        &&& b.finished == (num == 0)
    }

    /// An emitter at the origin with a quota of `num` bubbles; one with a
    /// quota of zero has nothing to emit and is finished from the start.
    pub fn new(num: usize) -> (r: Bubbles)
        ensures
            r.wf(),
            Bubbles::fresh_at(r, num, Point { x: 0, y: 0 }),
    {
        Bubbles { pos: Point { x: 0, y: 0 }, num, els: Vec::new(), dt: 0, next_dt: 0, finished: num == 0 }
    }

    /// One frame of `dt` microseconds: surfaced bubbles shrink (in a frame of
    /// positive length; a zero-length frame finishes nothing), rising ones
    /// move and may surface, and while the quota is not spent a new bubble
    /// is spawned whenever the spawn timer has run out.
    pub fn update(&mut self, surface_verts: &SurfaceVerts, dt: i64, rng: &mut RandomSource)
        requires
            old(self).wf(),
            mesh_ok(surface_verts),
            0 <= dt <= MAX_DT,
        ensures
            final(self).wf(),
            Bubbles::update_post(*old(self), *final(self), dt as int, surface_verts.layer_a@),
    {
        if self.finished {
            return;
        }
        let ghost before = self.els@;
        let mut found_one = false;
        let n = self.els.len();
        let mut i: usize = 0;
        while i < n
            invariant
                n == self.els@.len(),
                n == before.len(),
                i <= n,
                0 <= dt <= MAX_DT,
                self.pos == old(self).pos,
                self.num == old(self).num,
                self.dt == old(self).dt,
                self.next_dt == old(self).next_dt,
                self.finished == old(self).finished,
                old(self).wf(),
                mesh_ok(surface_verts),
                forall|j: int| 0 <= j < n ==> (#[trigger] self.els@[j]).wf(),
                forall|j: int| 0 <= j < n ==> (#[trigger] before[j]).wf(),
                forall|j: int|
                    i <= j < n ==> #[trigger] self.els@[j] == before[j],
                forall|j: int|
                    0 <= j < i && (#[trigger] before[j]).retiring() ==> self.els@[j]
                        == before[j].faded(dt as int),
                forall|j: int|
                    0 <= j < i && !(#[trigger] before[j]).retiring() ==> Bubbles::rose(
                        before[j],
                        self.els@[j],
                        dt as int,
                        surface_verts.layer_a@,
                    ),
                forall|j: int|
                    0 <= j < n && !(#[trigger] before[j]).retiring() ==> before[j].size >= SIZE_FLOOR,
                forall|j: int|
                    0 <= j < n && !(#[trigger] self.els@[j]).retiring() ==> self.els@[j].size
                        >= SIZE_FLOOR,
                forall|j: int|
                    0 <= j < i ==> ((#[trigger] before[j]).keeps_alive(dt as int)
                        ==> self.els@[j].size >= SIZE_FLOOR),
                found_one == exists|j: int| 0 <= j < i && (#[trigger] before[j]).keeps_alive(dt as int),
            decreases n - i,
        {
            let el = self.els[i];
            if el.dt0 == 0 {
                let size = if dt == 0 {
                    el.size
                } else if el.size >= SHRINK {
                    el.size - SHRINK
                } else {
                    0
                };
                self.els[i] = Bubble { size, ..el };
                if size >= SIZE_FLOOR {
                    found_one = true;
                }
            } else {
                found_one = true;
                self.els[i] = step_rising(el, surface_verts, dt);
            }
            proof {
                assert(before[i as int] == el);
            }
            i = i + 1;
        }
        self.dt = advance_clock(self.dt, dt);
        if self.els.len() < self.num {
            found_one = true;
            if self.next_dt <= self.dt {
                let size = rng.range(2000, 10_000);
                let delay = rng.range(0, 2_000_000);
                self.els.push(
                    Bubble {
                        pos: self.pos,
                        size,
                        ax: 0,
                        ay: BUOYANCY,
                        vx: 0,
                        vy: LAUNCH_VY,
                        dt0: self.dt + delay,
                        dt: 0,
                    },
                );
                let gap = rng.range(0, SPAWN_GAP);
                self.next_dt = self.dt + SPAWN_GAP + gap;
            }
        }
        if !found_one {
            self.finished = true;
        }
        proof {
            if self.els@.len() > n {
                assert(self.els@.len() == n + 1);
            }
            assert forall|j: int| 0 <= j < self.els@.len() implies (#[trigger] self.els@[j]).wf() by {}
            if !self.finished && self.els@.len() >= self.num {
                if self.els@.len() > n {
                    assert(self.els@[n as int].size >= SIZE_FLOOR);
                } else {
                    let j = choose|j: int| 0 <= j < n && (#[trigger] before[j]).keeps_alive(dt as int);
                    assert(self.els@[j].size >= SIZE_FLOOR);
                }
            }
        }
    }
}

/// An emitter never holds more bubbles than its quota: one `update` spawns at
/// most one, and only while fewer than the quota exist.
pub proof fn lemma_bubbles_quota(a: Bubbles, b: Bubbles, dt: int, surface: Seq<Point>)
    requires
        a.els@.len() <= a.num,
        Bubbles::update_post(a, b, dt, surface),
    ensures
        b.els@.len() <= b.num,
        b.els@.len() <= a.els@.len() + 1,
{
}

/// A zero-length frame never finishes an emitter: a live one either still
/// has bubbles to spawn or holds one that is rising or not yet faded.
pub proof fn lemma_bubbles_idle(a: Bubbles, b: Bubbles, surface: Seq<Point>)
    requires
        a.wf(),
        Bubbles::update_post(a, b, 0, surface),
    ensures
        b.finished == a.finished,
{
    if !a.finished && a.els@.len() >= a.num {
        let i = choose|i: int| 0 <= i < a.els@.len() && (#[trigger] a.els@[i]).size >= SIZE_FLOOR;
        assert(a.els@[i].keeps_alive(0));
    }
}

/// Frame `j` of a run of emitter states: positive length, one `update` long.
pub open spec fn frame_ok(states: Seq<Bubbles>, dts: Seq<int>, surfaces: Seq<Seq<Point>>, j: int) -> bool {
    dts[j] > 0 && Bubbles::update_post(states[j], states[j + 1], dts[j], surfaces[j])
}

proof fn lemma_bubbles_drain(
    states: Seq<Bubbles>,
    dts: Seq<int>,
    surfaces: Seq<Seq<Point>>,
    bound: int,
    k: int,
)
    requires
        states.len() == dts.len() + 1,
        surfaces.len() == dts.len(),
        forall|j: int| 0 <= j < dts.len() ==> #[trigger] frame_ok(states, dts, surfaces, j),
        states[0].els@.len() >= states[0].num,
        forall|i: int|
            0 <= i < states[0].els@.len() ==> (#[trigger] states[0].els@[i]).retiring()
                && states[0].els@[i].size <= bound,
        0 <= k < states.len(),
    ensures
        states[k].finished || (states[k].num == states[0].num && states[k].els@.len()
            == states[0].els@.len() && forall|i: int|
            0 <= i < states[k].els@.len() ==> (#[trigger] states[k].els@[i]).retiring()
                && (states[k].els@[i].size <= bound - k * SHRINK || states[k].els@[i].size == 0)),
        k >= 1 && states[k - 1].finished ==> states[k].finished,
        k >= 1 && !states[k - 1].finished && bound - k * SHRINK < SIZE_FLOOR ==> states[k].finished,
    decreases k,
{
    if k > 0 {
        lemma_bubbles_drain(states, dts, surfaces, bound, k - 1);
        let a = states[k - 1];
        let b = states[k];
        assert(frame_ok(states, dts, surfaces, k - 1));
        if !a.finished {
            assert forall|i: int| 0 <= i < b.els@.len() implies (#[trigger] b.els@[i]).retiring()
                && (b.els@[i].size <= bound - k * SHRINK || b.els@[i].size == 0) by {
                assert(a.els@[i].retiring());
                assert(b.els@[i] == a.els@[i].shrunk());
            }
            if bound - k * SHRINK < SIZE_FLOOR {
                assert forall|i: int| 0 <= i < a.els@.len() implies !(
                #[trigger] a.els@[i]).keeps_alive(dts[k - 1]) by {
                    assert(b.els@[i] == a.els@[i].shrunk());
                    assert(b.els@[i].size <= bound - k * SHRINK || b.els@[i].size == 0);
                }
            }
        }
    }
}

/// Once an emitter has spent its quota and every bubble has surfaced, it
/// finishes within a bounded number of frames of positive length: at the
/// latest in the frame in which its largest bubble shrinks below the size floor.
pub proof fn lemma_bubbles_finish(
    states: Seq<Bubbles>,
    dts: Seq<int>,
    surfaces: Seq<Seq<Point>>,
    bound: int,
)
    requires
        states.len() == dts.len() + 1,
        surfaces.len() == dts.len(),
        forall|j: int| 0 <= j < dts.len() ==> #[trigger] frame_ok(states, dts, surfaces, j),
        states[0].els@.len() >= states[0].num,
        forall|i: int|
            0 <= i < states[0].els@.len() ==> (#[trigger] states[0].els@[i]).retiring()
                && states[0].els@[i].size <= bound,
        dts.len() >= 1,
        bound - dts.len() * SHRINK < SIZE_FLOOR,
    ensures
        states.last().finished,
{
    lemma_bubbles_drain(states, dts, surfaces, bound, dts.len() as int);
}

impl Entity for Bubbles {
    open spec fn finished(&self) -> bool {
        self.finished
    }

    open spec fn inv(&self) -> bool {
        self.wf()
    }

    open spec fn placed(self, pos: Point) -> Self {
        Bubbles { pos, ..self }
    }

    fn is_finished(&self) -> (r: bool) {
        self.finished
    }

    fn set_pos(&mut self, pos: Point) {
        self.pos = pos;
    }
}

} // verus!

verus! {

/// The emitters of one kind of effect.
pub type BubblesManager = EntityManager<Bubbles>;

/// One slot before (`a`) and after (`b`) an emitter update.
pub open spec fn slot_updated(a: Slot<Bubbles>, b: Slot<Bubbles>, dt: int, surface: Seq<Point>) -> bool {
    a.id == b.id && Bubbles::update_post(a.entity, b.entity, dt, surface) && b.entity.wf()
}

impl EntityManager<Bubbles> {
    /// Starts a new emitter with a quota of `num` bubbles; returns its id.
    pub fn add_bubbles(&mut self, num: usize) -> (id: usize)
        requires
            old(self).wf(),
            old(self).entities_ok(),
            old(self).last_id < usize::MAX,
        ensures
            final(self).wf(),
            final(self).entities_ok(),
            id == old(self).last_id + 1,
            final(self).last_id == id,
            final(self).slots@.len() == old(self).slots@.len() + 1,
            final(self).slots@.drop_last() == old(self).slots@,
            final(self).slots@.last().id == id,
            Bubbles::fresh_at(final(self).slots@.last().entity, num, Point { x: 0, y: 0 }),
    {
        let id = self.insert(Bubbles::new(num));
        proof {
            assert(self.slots@.drop_last() =~= old(self).slots@);
        }
        id
    }

    /// Updates every emitter by one frame, then retires the finished ones.
    pub fn update(&mut self, surface_verts: &SurfaceVerts, dt: i64, rng: &mut RandomSource) -> (empty: bool)
        requires
            old(self).wf(),
            old(self).entities_ok(),
            mesh_ok(surface_verts),
            0 <= dt <= MAX_DT,
        ensures
            final(self).wf(),
            final(self).entities_ok(),
            final(self).last_id == old(self).last_id,
            exists|mid: Seq<Slot<Bubbles>>|
                mid.len() == old(self).slots@.len() && (forall|i: int|
                    0 <= i < mid.len() ==> slot_updated(
                        #[trigger] old(self).slots@[i],
                        mid[i],
                        dt as int,
                        surface_verts.layer_a@,
                    )) && final(self).slots@ == mid.filter(unfinished()),
            empty == (final(self).slots@.len() == 0),
    {
        let ghost before = self.slots@;
        let n = self.slots.len();
        let mut i: usize = 0;
        while i < n
            invariant
                self.wf(),
                self.entities_ok(),
                self.last_id == old(self).last_id,
                n == self.slots@.len(),
                n == before.len(),
                i <= n,
                0 <= dt <= MAX_DT,
                mesh_ok(surface_verts),
                forall|j: int| 0 <= j < n ==> #[trigger] self.slots@[j].id == before[j].id,
                forall|j: int| 0 <= j < i ==> slot_updated(
                        #[trigger] before[j],
                        self.slots@[j],
                        dt as int,
                        surface_verts.layer_a@,
                    ),
                forall|j: int| i <= j < n ==> #[trigger] self.slots@[j] == before[j],
            decreases n - i,
        {
            self.slots[i].entity.update(surface_verts, dt, rng);
            i = i + 1;
        }
        let ghost mid = self.slots@;
        let empty = self.retire_finished();
        proof {
            assert forall|j: int| 0 <= j < mid.len() implies slot_updated(
                #[trigger] before[j],
                mid[j],
                dt as int,
                surface_verts.layer_a@,
            ) by {}
        }
        empty
    }
}

} // verus!
