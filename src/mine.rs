//! A hazard spawned on a flat terrain sample: it rests on the terrain surface
//! until the scrolling world brings it to its launch threshold, then rises,
//! trailing bubbles, toward the ship.
use crate::bubbles::{Bubbles, BubblesManager};
use crate::entity::{unfinished, Entity, EntityManager, Slot};
use crate::geom::{
    clamp_coord, clamp_spec, in_coord_range, travel, travel_spec, Point, COORD_LIMIT, MAX_DT,
    MIN_FRAME, SURFACE_WIDTH, WINDOW_HEIGHT,
};
use crate::mesh::{get_surface_verts_index, is_surface_index, mesh_ok, ys_in_window, SurfaceVerts};
use crate::ship::Ship;
use crate::water::SCROLL_LIMIT;
use vstd::prelude::*;

verus! {

/// Starting rise rate, in thousandths.
pub const RATE_START: i64 = 3000;

/// Lowest rise rate, in thousandths.
pub const RATE_FLOOR: i64 = 500;

/// Per-frame factor on the rise rate, in thousandths.
pub const RATE_DECAY: i64 = 995;

/// Rise speed at rate one, in world units per second.
pub const RISE_SPEED: i64 = 100_000;

/// Extra rise speed while below the ship, in world units per second.
pub const PULL_SPEED: i64 = 80_000;

/// Bubbles in the trail emitter, renewed whenever it runs out.
pub const TRAIL_BUBBLES: usize = 5;

/// How far past the left edge, or below the bottom, a mine is retired.
pub const MINE_MARGIN: i64 = 20_000;

/// Bound on a mine's unscrolled x.
pub const MINE_X_LIMIT: i64 = 400_000_000_000;

pub struct Mine {
    /// `x` is unscrolled, like the sample it was spawned on; `y` is on screen.
    pub pos: Point,
    /// Screen x at and past which the mine is launched.
    pub launch_x: i64,
    /// Rise rate, in thousandths.
    pub dy: i64,
    /// Its bubble trail, in the bubbles manager.
    pub bubble_id: usize,
    /// Scroll offset of the last update.
    pub arena_x: i64,
    pub finished: bool,
}

/// Rise rate one frame later: decayed, but not below its floor.
pub open spec fn next_rate(rate: int) -> int {
    let r = rate * RATE_DECAY / 1000;
    if r < RATE_FLOOR {
        RATE_FLOOR as int
    } else {
        r
    }
}

impl Mine {
    pub open spec fn wf(&self) -> bool {
        &&& -MINE_X_LIMIT <= self.pos.x <= MINE_X_LIMIT
        &&& self.pos.bounded()
        &&& in_coord_range(self.launch_x as int)
        &&& RATE_FLOOR <= self.dy <= RATE_START
        &&& -SCROLL_LIMIT <= self.arena_x <= SCROLL_LIMIT
    }

    /// Screen x under scroll `arena_x`.
    pub open spec fn screen_x(&self, arena_x: int) -> int {
        arena_x + self.pos.x
    }

    /// What one `update` does to the mine `a`, giving `b`, at scroll
    /// `arena_x`, with the ship at height `ship_y` over the surface layer `surface`.
    pub open spec fn update_post(
        a: Mine,
        b: Mine,
        arena_x: int,
        dt: int,
        ship_y: int,
        surface: Seq<Point>,
    ) -> bool {
        if a.finished {
            b == a
        } else {
            &&& b.arena_x == arena_x
            &&& b.pos.x == a.pos.x
            &&& b.launch_x == a.launch_x
            &&& a.screen_x(arena_x) < a.launch_x ==> {
                &&& b.dy == a.dy
                &&& b.bubble_id == a.bubble_id
                &&& exists|i: int|
                    is_surface_index(surface, a.screen_x(arena_x), i) && b.pos.y == surface[i].y
            }
            &&& a.screen_x(arena_x) >= a.launch_x ==> {
                &&& b.dy == next_rate(a.dy as int)
                &&& b.pos.y == clamp_spec(
                    a.pos.y - (if a.pos.y > ship_y {
                        travel_spec(PULL_SPEED as int, dt)
                    } else {
                        0
                    }) - travel_spec(RISE_SPEED * b.dy / 1000, dt),
                    -COORD_LIMIT,
                    COORD_LIMIT as int,
                )
            }
            &&& b.finished == (b.screen_x(arena_x) < -MINE_MARGIN || b.pos.y >= WINDOW_HEIGHT
                + MINE_MARGIN)
        }
    }

    /// What one `update` of mine `a`, giving `b`, does to the bubbles
    /// manager, from `m0` to `m1`. A finished or resting mine leaves it alone.
    /// A launched one keeps its trail at its screen x and new height: it
    /// starts a fresh five-bubble emitter there when its last one has
    /// finished, and otherwise moves the one it has.
    pub open spec fn trail_post(
        a: Mine,
        b: Mine,
        arena_x: int,
        m0: BubblesManager,
        m1: BubblesManager,
    ) -> bool {
        if a.finished || a.screen_x(arena_x) < a.launch_x {
            m1 == m0
        } else {
            let p = Point { x: a.screen_x(arena_x) as i64, y: b.pos.y };
            if m0.finished_id(a.bubble_id) {
                &&& b.bubble_id == m0.last_id + 1
                &&& m1.last_id == b.bubble_id
                &&& m1.slots@.drop_last() == m0.slots@
                &&& m1.slots@.last().id == b.bubble_id
                &&& Bubbles::fresh_at(m1.slots@.last().entity, TRAIL_BUBBLES, p)
            } else {
                &&& b.bubble_id == a.bubble_id
                &&& m1.last_id == m0.last_id
                &&& m1.slots@.len() == m0.slots@.len()
                &&& forall|k: int|
                    0 <= k < m0.slots@.len() ==> #[trigger] m1.slots@[k] == (if m0.slots@[k].id
                        == a.bubble_id {
                        Slot { id: a.bubble_id, entity: m0.slots@[k].entity.placed(p) }
                    } else {
                        m0.slots@[k]
                    })
            }
        }
    }

    /// The mine `new` makes on the sample at `surface_pos` with the ship at `ship_pos`.
    pub open spec fn spawned_at(surface_pos: Point, ship_pos: Point) -> Mine {
        Mine {
            pos: Point { x: (surface_pos.x - SURFACE_WIDTH / 2) as i64, y: surface_pos.y },
            launch_x: (ship_pos.x + ship_pos.y - (WINDOW_HEIGHT - surface_pos.y)) as i64,
            dy: RATE_START,
            bubble_id: 0,
            arena_x: 0,
            finished: false,
        }
    }

    /// A mine on the terrain sample at `surface_pos`, half a surface width
    /// before it. It launches at screen x `ship.x + ship.y - (H - surface_pos.y)`:
    /// the deeper the terrain, the later.
    pub fn new(surface_pos: Point, ship: &Ship) -> (r: Mine)
        requires
            -SCROLL_LIMIT <= surface_pos.x <= 2 * SCROLL_LIMIT,
            0 <= surface_pos.y <= WINDOW_HEIGHT,
            ship.wf(),
        ensures
            r.wf(),
            r == Mine::spawned_at(surface_pos, ship.pos),
            r.launch_x == ship.pos.x + ship.pos.y - (WINDOW_HEIGHT - surface_pos.y),
    {
        Mine {
            pos: Point { x: surface_pos.x - SURFACE_WIDTH / 2, y: surface_pos.y },
            launch_x: ship.pos.x + ship.pos.y - (WINDOW_HEIGHT - surface_pos.y),
            dy: RATE_START,
            bubble_id: 0,
            arena_x: 0,
            finished: false,
        }
    }

    /// One frame of `dt` microseconds at scroll `arena_x`. Short of its
    /// launch threshold the mine is pinned to the terrain surface; at or past
    /// it, it rises, faster while below the ship, and keeps a bubble trail at
    /// its position, starting a new emitter whenever the last one finished.
    /// It is retired once off the left edge or below the bottom.
    pub fn update(
        &mut self,
        dt: i64,
        arena_x: i64,
        bubbles_manager: &mut BubblesManager,
        ship: &Ship,
        surface_verts: &SurfaceVerts,
    )
        requires
            old(self).wf(),
            0 <= dt <= MAX_DT,
            -SCROLL_LIMIT <= arena_x <= SCROLL_LIMIT,
            ship.wf(),
            mesh_ok(surface_verts),
            old(bubbles_manager).wf(),
            old(bubbles_manager).entities_ok(),
            old(bubbles_manager).last_id < usize::MAX,
        ensures
            final(self).wf(),
            final(bubbles_manager).wf(),
            final(bubbles_manager).entities_ok(),
            final(bubbles_manager).last_id <= old(bubbles_manager).last_id + 1,
            Mine::trail_post(
                *old(self),
                *final(self),
                arena_x as int,
                *old(bubbles_manager),
                *final(bubbles_manager),
            ),
            Mine::update_post(
                *old(self),
                *final(self),
                arena_x as int,
                dt as int,
                ship.pos.y as int,
                surface_verts.layer_a@,
            ),
    {
        if self.finished {
            return;
        }
        self.arena_x = arena_x;
        let x = arena_x + self.pos.x;
        if x >= self.launch_x {
            let mut y = self.pos.y;
            if y > ship.pos.y {
                y = y - travel(PULL_SPEED, dt);
            }
            let r = self.dy * RATE_DECAY / 1000;
            self.dy = if r < RATE_FLOOR {
                RATE_FLOOR
            } else {
                r
            };
            y = y - travel(RISE_SPEED * self.dy / 1000, dt);
            self.pos.y = clamp_coord(y);
            let renew = bubbles_manager.is_finished(self.bubble_id);
            if renew {
                self.bubble_id = bubbles_manager.add_bubbles(TRAIL_BUBBLES);
            }
            let ghost k = bubbles_manager.slots@.len() - 1;
            let ghost m_mid = *bubbles_manager;
            bubbles_manager.set_pos(self.bubble_id, Point { x, y: self.pos.y });
            proof {
                if renew {
                    assert(bubbles_manager.slots@[k].id == self.bubble_id);
                    assert forall|j: int| 0 <= j < k implies m_mid.slots@[j].id != self.bubble_id by {
                        assert(m_mid.slots@[j] == old(bubbles_manager).slots@[j]);
                    }
                    assert(bubbles_manager.slots@.drop_last() =~= old(bubbles_manager).slots@);
                }
            }
        } else {
            let index = get_surface_verts_index(surface_verts, x);
            assert(surface_verts.layer_a@[index as int].bounded());
            self.pos.y = surface_verts.layer_a[index].y;
            assert(is_surface_index(surface_verts.layer_a@, x as int, index as int));
        }
        if x < -MINE_MARGIN || self.pos.y >= WINDOW_HEIGHT + MINE_MARGIN {
            self.finished = true;
        }
    }
}

proof fn lemma_rise_positive(rate: int, dt: int)
    requires
        RATE_FLOOR <= rate <= RATE_START,
        MIN_FRAME <= dt <= MAX_DT,
    ensures
        0 < travel_spec(RISE_SPEED * next_rate(rate) / 1000, dt) <= RISE_SPEED * 3,
        0 <= travel_spec(PULL_SPEED as int, dt) <= PULL_SPEED,
{
    let v = RISE_SPEED * next_rate(rate) / 1000;
    assert(v >= 50_000);
    assert(v <= 300_000);
    assert(50_000 * MIN_FRAME <= v * dt <= 300_000 * MAX_DT) by (nonlinear_arith)
        requires
            50_000 <= v <= 300_000,
            MIN_FRAME <= dt <= MAX_DT,
    ;
    vstd::arithmetic::div_mod::lemma_div_is_ordered(50_000 * MIN_FRAME, v * dt, 1_000_000);
    vstd::arithmetic::div_mod::lemma_div_is_ordered(v * dt, 300_000 * MAX_DT, 1_000_000);
    assert(0 <= PULL_SPEED * dt <= PULL_SPEED * MAX_DT) by (nonlinear_arith)
        requires
            MIN_FRAME <= dt <= MAX_DT,
    ;
    vstd::arithmetic::div_mod::lemma_div_is_ordered(PULL_SPEED * dt, PULL_SPEED * MAX_DT, 1_000_000);
    vstd::arithmetic::div_mod::lemma_div_pos_is_pos(PULL_SPEED * dt, 1_000_000);
}

/// Short of its launch threshold a live mine is pinned to the terrain surface
/// at its screen x; at or past the threshold it rises: its height strictly
/// decreases over every frame of at least a millisecond while it is below the ship.
pub proof fn lemma_mine_pinned_then_rising(
    a: Mine,
    b: Mine,
    arena_x: int,
    dt: int,
    ship_y: int,
    surface: Seq<Point>,
)
    requires
        a.wf(),
        !a.finished,
        MIN_FRAME <= dt <= MAX_DT,
        -COORD_LIMIT / 2 <= ship_y,
        Mine::update_post(a, b, arena_x, dt, ship_y, surface),
    ensures
        a.screen_x(arena_x) < a.launch_x ==> exists|i: int|
            is_surface_index(surface, a.screen_x(arena_x), i) && b.pos.y == surface[i].y,
        a.screen_x(arena_x) >= a.launch_x && a.pos.y > ship_y ==> b.pos.y < a.pos.y,
{
    lemma_rise_positive(a.dy as int, dt);
}

/// A frame of zero length at an unchanged scroll leaves a live mine that is
/// still within the play area live: a launched one does not move.
pub proof fn lemma_mine_idle(a: Mine, b: Mine, ship_y: int, surface: Seq<Point>)
    requires
        a.wf(),
        !a.finished,
        a.screen_x(a.arena_x as int) >= -MINE_MARGIN,
        a.pos.y < WINDOW_HEIGHT + MINE_MARGIN,
        ys_in_window(surface),
        Mine::update_post(a, b, a.arena_x as int, 0, ship_y, surface),
    ensures
        !b.finished,
        a.screen_x(a.arena_x as int) >= a.launch_x ==> b.pos.y == a.pos.y,
{
    if a.screen_x(a.arena_x as int) < a.launch_x {
        let i = choose|i: int|
            is_surface_index(surface, a.screen_x(a.arena_x as int), i) && b.pos.y == surface[i].y;
        assert(surface[i].y <= WINDOW_HEIGHT);
    }
}

impl Entity for Mine {
    open spec fn finished(&self) -> bool {
        self.finished
    }

    open spec fn inv(&self) -> bool {
        self.wf()
    }

    open spec fn placed(self, pos: Point) -> Self {
        self
    }

    fn is_finished(&self) -> (r: bool) {
        self.finished
    }

    /// Mines are placed by the terrain they spawn on; moving one is a no-op.
    fn set_pos(&mut self, _pos: Point) {
    }
}

pub type MineManager = EntityManager<Mine>;

impl EntityManager<Mine> {
    /// Updates every mine by one frame (see `Mine::update`), then retires the
    /// finished ones; true when none is left.
    pub fn update(
        &mut self,
        dt: i64,
        arena_x: i64,
        bubbles_manager: &mut BubblesManager,
        ship: &Ship,
        surface_verts: &SurfaceVerts,
    ) -> (empty: bool)
        requires
            old(self).wf(),
            old(self).entities_ok(),
            0 <= dt <= MAX_DT,
            -SCROLL_LIMIT <= arena_x <= SCROLL_LIMIT,
            ship.wf(),
            mesh_ok(surface_verts),
            old(bubbles_manager).wf(),
            old(bubbles_manager).entities_ok(),
            old(bubbles_manager).last_id + old(self).slots@.len() < usize::MAX,
        ensures
            final(self).wf(),
            final(self).entities_ok(),
            final(self).last_id == old(self).last_id,
            final(bubbles_manager).wf(),
            final(bubbles_manager).entities_ok(),
            final(bubbles_manager).last_id <= old(bubbles_manager).last_id + old(self).slots@.len(),
            old(self).slots@.len() == 0 ==> *final(bubbles_manager) == *old(bubbles_manager),
            exists|mid: Seq<Slot<Mine>>|
                mid.len() == old(self).slots@.len() && (forall|i: int|
                    0 <= i < mid.len() ==> #[trigger] mid[i].id == old(self).slots@[i].id
                        && Mine::update_post(
                        old(self).slots@[i].entity,
                        mid[i].entity,
                        arena_x as int,
                        dt as int,
                        ship.pos.y as int,
                        surface_verts.layer_a@,
                    )) && final(self).slots@ == mid.filter(unfinished()),
            empty == (final(self).slots@.len() == 0),
    {
        let ghost before = self.slots@;
        let n = self.slots.len();
        let mut i: usize = 0;
        while i < n
            invariant
                self.wf(),
                self.entities_ok(),
                self.last_id == old(self).last_id,
                n == self.slots@.len(),
                n == before.len(),
                i <= n,
                0 <= dt <= MAX_DT,
                -SCROLL_LIMIT <= arena_x <= SCROLL_LIMIT,
                ship.wf(),
                mesh_ok(surface_verts),
                bubbles_manager.wf(),
                bubbles_manager.entities_ok(),
                bubbles_manager.last_id <= old(bubbles_manager).last_id + i,
                n == 0 ==> *bubbles_manager == *old(bubbles_manager),
                old(bubbles_manager).last_id + n < usize::MAX,
                forall|j: int| 0 <= j < n ==> #[trigger] self.slots@[j].id == before[j].id,
                forall|j: int|
                    0 <= j < i ==> Mine::update_post(
                        before[j].entity,
                        #[trigger] self.slots@[j].entity,
                        arena_x as int,
                        dt as int,
                        ship.pos.y as int,
                        surface_verts.layer_a@,
                    ),
                forall|j: int| i <= j < n ==> #[trigger] self.slots@[j] == before[j],
            decreases n - i,
        {
            self.slots[i].entity.update(dt, arena_x, bubbles_manager, ship, surface_verts);
            i = i + 1;
        }
        self.retire_finished()
    }
}

} // verus!
