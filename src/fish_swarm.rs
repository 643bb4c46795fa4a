//! A swarm of fish in a binary-tree formation: slot 0 leads and wanders near
//! itself; every other slot `i` follows slot `(i - 1) / 2`, retargeting near
//! that fish whenever it reaches its own target.
use crate::entity::{unfinished, Entity, EntityManager, Slot};
use crate::fish::{Fish, FishManager, FISH_DEPTH};
use crate::geom::{clamp, clamp_spec, Point, MAX_DT, WINDOW_HEIGHT, WINDOW_WIDTH};
use crate::mesh::{is_surface_index, mesh_ok, SurfaceVerts};
use crate::random::RandomSource;
use vstd::prelude::*;

verus! {

/// Leftmost target x.
pub const TARGET_MIN_X: i64 = -100_000;

/// Rightmost target x.
pub const TARGET_MAX_X: i64 = WINDOW_WIDTH + 20_000;

/// Highest target (smallest y).
pub const TARGET_MIN_Y: i64 = 300_000;

/// Lowest target (largest y).
pub const TARGET_MAX_Y: i64 = WINDOW_HEIGHT + 20_000;

/// Screen x at which the first fish of a swarm enters.
pub const SPAWN_X: i64 = WINDOW_WIDTH + 20_000;

/// Spacing of the entering fish along x.
pub const SPAWN_SPACING: i64 = 10_000;

/// Highest entry height.
pub const SPAWN_MIN_Y: i64 = 100_000;

/// Most fish in one swarm.
pub const MAX_SWARM: usize = 10_000;

/// Largest relaxation of a swarm's formation.
pub const MAX_RELAXED: i64 = 1000;

/// Follow radius per unit of relaxation, and its base.
pub const RADIUS_STEP: i64 = 10_000;

/// The slot that slot `i` follows.
pub open spec fn formation_parent(i: int) -> int {
    (i - 1) / 2
}

/// The slot that slot `i > 0` follows: `(i - 1) / 2`.
pub fn parent_slot(i: usize) -> (r: usize)
    requires
        i > 0,
    ensures
        r == formation_parent(i as int),
        r < i,
{
    (i - 1) / 2
}

/// Every follower's leader comes before it, and slots `2p + 1` and `2p + 2`
/// both follow slot `p`.
pub proof fn lemma_formation_parents(i: int)
    requires
        i > 0,
    ensures
        0 <= formation_parent(i) < i,
        formation_parent(2 * i + 1) == i,
        formation_parent(2 * i + 2) == i,
{
}

/// The target `(ox, oy)` from `anchor`, held within the play bounds.
pub open spec fn target_from_offsets_spec(anchor: Point, ox: int, oy: int) -> Point {
    Point {
        x: clamp_spec(anchor.x + ox, TARGET_MIN_X as int, TARGET_MAX_X as int) as i64,
        y: clamp_spec(anchor.y + oy, TARGET_MIN_Y as int, TARGET_MAX_Y as int) as i64,
    }
}

pub fn target_from_offsets(anchor: Point, ox: i64, oy: i64) -> (r: Point)
    requires
        anchor.bounded(),
        -1_000_000_000 <= ox <= 1_000_000_000,
        -1_000_000_000 <= oy <= 1_000_000_000,
    ensures
        r == target_from_offsets_spec(anchor, ox as int, oy as int),
{
    Point {
        x: clamp(anchor.x + ox, TARGET_MIN_X, TARGET_MAX_X),
        y: clamp(anchor.y + oy, TARGET_MIN_Y, TARGET_MAX_Y),
    }
}

/// `t` is a target drawn near `anchor`: offsets in `[x0, x1) x [y0, y1)`.
pub open spec fn aimed_at(t: Point, anchor: Point, x0: int, x1: int, y0: int, y1: int) -> bool {
    exists|ox: int, oy: int|
        x0 <= ox < x1 && y0 <= oy < y1 && t == target_from_offsets_spec(anchor, ox, oy)
}

/// A random target near `anchor`, with offsets drawn from `[rx0, rx1) x [ry0, ry1)`.
fn make_new_target_pos(
    anchor: Point,
    rx0: i64,
    rx1: i64,
    ry0: i64,
    ry1: i64,
    rng: &mut RandomSource,
) -> (r: Point)
    requires
        anchor.bounded(),
        -1_000_000_000 <= rx0 < rx1 <= 1_000_000_000,
        -1_000_000_000 <= ry0 < ry1 <= 1_000_000_000,
    ensures
        aimed_at(r, anchor, rx0 as int, rx1 as int, ry0 as int, ry1 as int),
{
    let ox = rng.range(rx0, rx1);
    let oy = rng.range(ry0, ry1);
    target_from_offsets(anchor, ox, oy)
}

/// Target offsets of slot `i`: the lead looks a little left of itself,
/// followers anywhere within the swarm's radius of their leader.
pub open spec fn offsets(i: int, relaxed: int) -> (int, int, int, int) {
    if i == 0 {
        (-40_000, -1_000, -40_000, 45_000)
    } else {
        let r = RADIUS_STEP + relaxed * RADIUS_STEP;
        (-r, r, -r, r)
    }
}

/// What slot `i` aims near: the lead's own position, a follower's leader's.
pub open spec fn anchor_of(fish: Seq<Fish>, i: int) -> Point {
    if i == 0 {
        fish[0].pos
    } else {
        fish[formation_parent(i)].pos
    }
}

/// Fish `b` is fish `a`, the fish in slot `i`, after the retargeting pass:
/// given a new target near its anchor if it had reached its old one, left
/// alone otherwise.
pub open spec fn retargeted(a: Fish, b: Fish, fish: Seq<Fish>, i: int, relaxed: int) -> bool {
    if a.target_reached {
        let (x0, x1, y0, y1) = offsets(i, relaxed);
        &&& aimed_at(b.target_pos, anchor_of(fish, i), x0, x1, y0, y1)
        &&& b == Fish { target_pos: b.target_pos, target_reached: false, ..a }
    } else {
        b == a
    }
}

/// `p` is fish `a` of slot `i` once it has entered: a fish still at height
/// zero is placed off the right edge, spaced by its slot, at a random height.
pub open spec fn entered(a: Fish, p: Fish, i: int) -> bool {
    if a.pos.y == 0 {
        &&& SPAWN_MIN_Y <= p.pos.y < WINDOW_HEIGHT
        &&& p == Fish { pos: Point { x: (SPAWN_X + i * SPAWN_SPACING) as i64, y: p.pos.y }, ..a }
    } else {
        p == a
    }
}

/// `b` is fish `a` of slot `i` after entering and one frame of `Fish::update`
/// over the surface layer `surface`.
pub open spec fn steered(a: Fish, b: Fish, dt: int, i: int, surface: Seq<Point>) -> bool {
    exists|p: Fish|
        #[trigger] entered(a, p, i) && (p.finished ==> b == p) && (!p.finished ==> exists|k: int|
            is_surface_index(surface, p.pos.x as int, k) && b == p.stepped(
                surface[k].y + FISH_DEPTH,
                dt,
                i,
            ))
}

/// One frame of a swarm whose slots were `before`: `st` holds each fish
/// after it entered and steered as slot `i`, `mid` each slot after the
/// retargeting pass.
pub open spec fn swarm_step(
    before: Seq<Slot<Fish>>,
    st: Seq<Fish>,
    mid: Seq<Slot<Fish>>,
    relaxed: int,
    dt: int,
    surface: Seq<Point>,
) -> bool {
    &&& st.len() == mid.len() == before.len()
    &&& forall|i: int|
        0 <= i < st.len() ==> steered(before[i].entity, #[trigger] st[i], dt, i, surface)
    &&& forall|i: int|
        0 <= i < mid.len() ==> #[trigger] mid[i].id == before[i].id
    &&& forall|i: int|
        0 <= i < mid.len() ==> retargeted(
            #[trigger] st[i],
            mid[i].entity,
            mid.map_values(|s: Slot<Fish>| s.entity),
            i,
            relaxed,
        )
}

pub struct FishSwarm {
    pub fish_manager: FishManager,
    pub finished: bool,
    /// Looseness of the formation: followers stay within `(1 + relaxed) * 10` pixels.
    pub relaxed: i64,
}

impl FishSwarm {
    pub open spec fn wf(&self) -> bool {
        &&& self.fish_manager.wf()
        &&& self.fish_manager.entities_ok()
        &&& self.fish_manager.slots@.len() <= MAX_SWARM
        &&& self.fish_manager.last_id <= MAX_SWARM
        &&& 0 <= self.relaxed <= MAX_RELAXED
    }

    /// What one `update` does to swarm `a`, giving `b`: see `swarm_step`;
    /// finished fish are retired, and the swarm finishes once none is left.
    pub open spec fn update_post(a: FishSwarm, b: FishSwarm, dt: int, surface: Seq<Point>) -> bool {
        if a.finished {
            b == a
        } else {
            &&& b.relaxed == a.relaxed
            &&& exists|st: Seq<Fish>, mid: Seq<Slot<Fish>>|
                #[trigger] swarm_step(a.fish_manager.slots@, st, mid, a.relaxed as int, dt, surface)
                    && b.fish_manager.slots@ == mid.filter(unfinished())
            &&& b.finished == (b.fish_manager.slots@.len() == 0)
        }
    }

    /// `count` fish of palette `fish_type`, waiting to enter off the right edge.
    pub fn new(count: usize, relaxed: i64, fish_type: usize, rng: &mut RandomSource) -> (r: FishSwarm)
        requires
            count <= MAX_SWARM,
            0 <= relaxed <= MAX_RELAXED,
        ensures
            r.wf(),
            r.fish_manager.slots@.len() == count,
            !r.finished,
            r.relaxed == relaxed,
            forall|i: int|
                0 <= i < count ==> (#[trigger] r.fish_manager.slots@[i]).entity.pos == Point::zero_spec()
                    && r.fish_manager.slots@[i].entity.fish_type == fish_type
                    && r.fish_manager.slots@[i].entity.target_reached,
            forall|i: int|
                0 <= i < count ==> 1000 <= (#[trigger] r.fish_manager.slots@[i]).entity.scale < 3000
                    && r.fish_manager.slots@[i].entity.scale == r.fish_manager.slots@[0].entity.scale,
    {
        let scale = rng.range(1000, 3000);
        let mut fish_manager = FishManager::new();
        let mut k: usize = 0;
        while k < count
            invariant
                k <= count <= MAX_SWARM,
                fish_manager.wf(),
                fish_manager.entities_ok(),
                fish_manager.slots@.len() == k,
                fish_manager.last_id == k,
                forall|i: int|
                    0 <= i < k ==> (#[trigger] fish_manager.slots@[i]).entity.pos == Point::zero_spec()
                        && fish_manager.slots@[i].entity.fish_type == fish_type
                        && fish_manager.slots@[i].entity.target_reached,
                1000 <= scale < 3000,
                forall|i: int| 0 <= i < k ==> (#[trigger] fish_manager.slots@[i]).entity.scale == scale,
            decreases count - k,
        {
            let f = Fish::new(Point::zero(), scale, fish_type);
            assert(f.wf());
            fish_manager.insert(f);
            k = k + 1;
        }
        FishSwarm { fish_manager, finished: false, relaxed }
    }

    /// One frame: fish that have not entered yet are placed off the right
    /// edge at a random height; every fish steers (see `Fish::update`), and
    /// those that reached their target get a new one near their anchor (see
    /// `retargeted`); finished fish are retired. Returns whether the swarm is
    /// finished, which it is once no fish is left.
    pub fn update(&mut self, dt: i64, surface_verts: &SurfaceVerts, rng: &mut RandomSource) -> (r: bool)
        requires
            old(self).wf(),
            mesh_ok(surface_verts),
            0 <= dt <= MAX_DT,
        ensures
            final(self).wf(),
            r == final(self).finished,
            FishSwarm::update_post(*old(self), *final(self), dt as int, surface_verts.layer_a@),
    {
        if self.finished {
            return true;
        }
        let ghost before = self.fish_manager.slots@;
        let mut st: Ghost<Seq<Fish>> = Ghost(Seq::empty());
        let mut poss: Vec<Point> = Vec::new();
        let n = self.fish_manager.slots.len();
        let mut i: usize = 0;
        while i < n
            invariant
                self.fish_manager.wf(),
                self.fish_manager.entities_ok(),
                self.fish_manager.last_id == old(self).fish_manager.last_id,
                self.fish_manager.last_id <= MAX_SWARM,
                self.relaxed == old(self).relaxed,
                0 <= self.relaxed <= MAX_RELAXED,
                !self.finished,
                n == self.fish_manager.slots@.len(),
                n == before.len(),
                n <= MAX_SWARM,
                i <= n,
                0 <= dt <= MAX_DT,
                mesh_ok(surface_verts),
                st@.len() == i,
                poss@.len() == i,
                forall|j: int| 0 <= j < n ==> #[trigger] self.fish_manager.slots@[j].id == before[j].id,
                forall|j: int| i <= j < n ==> #[trigger] self.fish_manager.slots@[j] == before[j],
                forall|j: int|
                    0 <= j < i ==> steered(
                        before[j].entity,
                        #[trigger] st@[j],
                        dt as int,
                        j,
                        surface_verts.layer_a@,
                    ),
                forall|j: int| 0 <= j < i ==> #[trigger] poss@[j] == self.fish_manager.slots@[j].entity.pos,
                forall|j: int|
                    0 <= j < i ==> retargeted(
                        #[trigger] st@[j],
                        self.fish_manager.slots@[j].entity,
                        self.fish_manager.slots@.map_values(|s: Slot<Fish>| s.entity),
                        j,
                        self.relaxed as int,
                    ),
            decreases n - i,
        {
            let ghost a = self.fish_manager.slots@[i as int].entity;
            if self.fish_manager.slots[i].entity.pos.y == 0 {
                let y = rng.range(SPAWN_MIN_Y, WINDOW_HEIGHT);
                self.fish_manager.slots[i].entity.pos = Point {
                    x: SPAWN_X + (i as i64) * SPAWN_SPACING,
                    y,
                };
            }
            let ghost p = self.fish_manager.slots@[i as int].entity;
            assert(entered(a, p, i as int));
            self.fish_manager.slots[i].entity.update(dt, surface_verts, i);
            proof {
                st@ = st@.push(self.fish_manager.slots@[i as int].entity);
                assert(steered(a, st@[i as int], dt as int, i as int, surface_verts.layer_a@));
            }
            let ghost stepped = self.fish_manager.slots@;
            if self.fish_manager.slots[i].entity.has_reached_target() {
                let anchor = if i == 0 {
                    self.fish_manager.slots[0].entity.pos
                } else {
                    poss[parent_slot(i)]
                };
                let target = if i == 0 {
                    make_new_target_pos(anchor, -40_000, -1_000, -40_000, 45_000, rng)
                } else {
                    let r = RADIUS_STEP + self.relaxed * RADIUS_STEP;
                    make_new_target_pos(anchor, -r, r, -r, r, rng)
                };
                self.fish_manager.slots[i].entity.set_target_pos(target);
            }
            poss.push(self.fish_manager.slots[i].entity.pos);
            proof {
                let fs = self.fish_manager.slots@.map_values(|s: Slot<Fish>| s.entity);
                let fs0 = stepped.map_values(|s: Slot<Fish>| s.entity);
                assert forall|j: int| 0 <= j <= i implies retargeted(
                    #[trigger] st@[j],
                    self.fish_manager.slots@[j].entity,
                    fs,
                    j,
                    self.relaxed as int,
                ) by {
                    if j < i {
                        assert(self.fish_manager.slots@[j] == stepped[j]);
                        if j > 0 {
                            assert(fs[formation_parent(j)] == fs0[formation_parent(j)]);
                        }
                        assert(anchor_of(fs, j) == anchor_of(fs0, j));
                    } else {
                        if j > 0 {
                            assert(fs[formation_parent(j)].pos == poss@[formation_parent(j)]);
                        }
                    }
                }
            }
            i = i + 1;
        }
        let ghost mid = self.fish_manager.slots@;
        self.finished = self.fish_manager.retire_finished();
        proof {
            assert(swarm_step(before, st@, mid, self.relaxed as int, dt as int, surface_verts.layer_a@));
        }
        self.finished
    }

    /// Whether the lead fish has got past three quarters of the window width.
    pub fn in_last_sector(&self) -> (r: bool)
        ensures
            self.fish_manager.slots@.len() == 0 ==> !r,
            self.fish_manager.slots@.len() > 0 ==> r == (4 * self.fish_manager.slots@[0].entity.pos.x
                >= 3 * WINDOW_WIDTH),
    {
        match self.fish_manager.head() {
            Some(fish) => 4 * (fish.pos.x as i128) >= 3 * (WINDOW_WIDTH as i128),
            None => false,
        }
    }
}

impl Entity for FishSwarm {
    open spec fn finished(&self) -> bool {
        self.finished
    }

    open spec fn inv(&self) -> bool {
        self.wf()
    }

    open spec fn placed(self, pos: Point) -> Self {
        self
    }

    fn is_finished(&self) -> (r: bool) {
        self.finished
    }

    /// A swarm has no position of its own; moving it is a no-op.
    fn set_pos(&mut self, _pos: Point) {
    }
}

pub type FishSwarmManager = EntityManager<FishSwarm>;

/// The swarm's lead fish is past three quarters of the window width.
pub open spec fn lead_far(s: FishSwarm) -> bool {
    s.fish_manager.slots@.len() > 0 && 4 * s.fish_manager.slots@[0].entity.pos.x >= 3 * WINDOW_WIDTH
}

impl EntityManager<FishSwarm> {
    /// Updates every swarm by one frame (see `FishSwarm::update`), then
    /// retires the finished ones. Returns whether the lead fish of some swarm
    /// is past three quarters of the window width after its update.
    pub fn update(&mut self, dt: i64, surface_verts: &SurfaceVerts, rng: &mut RandomSource) -> (r: bool)
        requires
            old(self).wf(),
            old(self).entities_ok(),
            mesh_ok(surface_verts),
            0 <= dt <= MAX_DT,
        ensures
            final(self).wf(),
            final(self).entities_ok(),
            final(self).last_id == old(self).last_id,
            exists|mid: Seq<Slot<FishSwarm>>|
                {
                    &&& mid.len() == old(self).slots@.len()
                    &&& forall|i: int|
                        0 <= i < mid.len() ==> #[trigger] mid[i].id == old(self).slots@[i].id
                            && FishSwarm::update_post(
                            old(self).slots@[i].entity,
                            mid[i].entity,
                            dt as int,
                            surface_verts.layer_a@,
                        )
                    &&& final(self).slots@ == mid.filter(unfinished())
                    &&& r == exists|i: int| 0 <= i < mid.len() && lead_far(#[trigger] mid[i].entity)
                },
    {
        let ghost before = self.slots@;
        let n = self.slots.len();
        let mut any = false;
        let mut i: usize = 0;
        while i < n
            invariant
                self.wf(),
                self.entities_ok(),
                self.last_id == old(self).last_id,
                n == self.slots@.len(),
                n == before.len(),
                i <= n,
                0 <= dt <= MAX_DT,
                mesh_ok(surface_verts),
                forall|j: int| 0 <= j < n ==> #[trigger] self.slots@[j].id == before[j].id,
                any == exists|j: int| 0 <= j < i && lead_far(#[trigger] self.slots@[j].entity),
                forall|j: int|
                    0 <= j < i ==> FishSwarm::update_post(
                        before[j].entity,
                        #[trigger] self.slots@[j].entity,
                        dt as int,
                        surface_verts.layer_a@,
                    ),
                forall|j: int| i <= j < n ==> #[trigger] self.slots@[j] == before[j],
            decreases n - i,
        {
            let ghost prior = self.slots@;
            self.slots[i].entity.update(dt, surface_verts, rng);
            proof {
                assert forall|j: int| 0 <= j < i implies #[trigger] self.slots@[j] == prior[j] by {}
            }
            if self.slots[i].entity.in_last_sector() {
                any = true;
            }
            proof {
                if any {
                    if !(exists|j: int| 0 <= j < i && lead_far(#[trigger] prior[j].entity)) {
                        assert(lead_far(self.slots@[i as int].entity));
                    } else {
                        let j = choose|j: int| 0 <= j < i && lead_far(#[trigger] prior[j].entity);
                        assert(self.slots@[j] == prior[j]);
                    }
                } else {
                    assert forall|j: int| 0 <= j < i + 1 implies !lead_far(#[trigger] self.slots@[j].entity) by {
                        if j < i {
                            assert(self.slots@[j] == prior[j]);
                        }
                    }
                }
            }
            i = i + 1;
        }
        self.retire_finished();
        any
    }
}

} // verus!
