//! One frame of the whole simulation, in its fixed order: hazards, terrain,
//! swarms, particles, projectiles, then the player.
use crate::bubbles::{slot_updated, Bubbles, BubblesManager};
use crate::bullet::BulletManager;
use crate::bullet::step_slot;
use crate::entity::{unfinished, Entity, Slot};
use crate::fish_swarm::{lead_far, FishSwarm, FishSwarmManager};
use crate::mesh::is_surface_index;
use crate::geom::{MAX_DT, SURFACE_WIDTH};
use crate::mine::{Mine, MineManager};
use crate::random::RandomSource;
use crate::ship::{settle, Ship, MUZZLE_DX, MUZZLE_DY, SHIP_CLEARANCE, SHIP_LIMIT, TRAIL_DX};
use crate::geom::{Point, WINDOW_HEIGHT, WINDOW_WIDTH};
use crate::mesh::Surface;
use crate::water::{
    before_of, event_of, grown_from, grown_step, kept_at, SpawnEvent, Water, SCROLL_LIMIT,
};
use vstd::prelude::*;

verus! {

/// The mines spawned on the flat samples among `events`, in order, with the ship at `ship_pos`.
pub open spec fn mines_for(events: Seq<SpawnEvent>, ship_pos: Point) -> Seq<Mine> {
    events.filter(|e: SpawnEvent| e.trigger).map_values(|e: SpawnEvent| Mine::spawned_at(e.pos, ship_pos))
}

/// Every swarm of `before` after one `FishSwarm::update` over the surface
/// layer `surface`, in `mid`, slot by slot.
pub open spec fn swarms_stepped(
    before: Seq<Slot<FishSwarm>>,
    mid: Seq<Slot<FishSwarm>>,
    dt: int,
    surface: Seq<Point>,
) -> bool {
    &&& mid.len() == before.len()
    &&& forall|i: int|
        0 <= i < mid.len() ==> #[trigger] mid[i].id == before[i].id && FishSwarm::update_post(
            before[i].entity,
            mid[i].entity,
            dt,
            surface,
        )
}

/// Every mine of `before` after one `Mine::update` at scroll `arena_x`, in
/// `mid`, slot by slot.
pub open spec fn mines_stepped(
    before: Seq<Slot<Mine>>,
    mid: Seq<Slot<Mine>>,
    arena_x: int,
    dt: int,
    ship_y: int,
    surface: Seq<Point>,
) -> bool {
    &&& mid.len() == before.len()
    &&& forall|i: int|
        0 <= i < mid.len() ==> #[trigger] mid[i].id == before[i].id && Mine::update_post(
            before[i].entity,
            mid[i].entity,
            arena_x,
            dt,
            ship_y,
            surface,
        )
}

/// Every emitter of `before` after one `Bubbles::update`, in `mid`, slot by slot.
pub open spec fn bubbles_stepped(
    before: Seq<Slot<Bubbles>>,
    mid: Seq<Slot<Bubbles>>,
    dt: int,
    surface: Seq<Point>,
) -> bool {
    &&& mid.len() == before.len()
    &&& forall|i: int| 0 <= i < mid.len() ==> slot_updated(#[trigger] before[i], mid[i], dt, surface)
}

/// `b` is `a` with the emitter `id`, if it is there, moved to `p`.
pub open spec fn trail_moved(a: Seq<Slot<Bubbles>>, b: Seq<Slot<Bubbles>>, id: usize, p: Point) -> bool {
    &&& b.len() == a.len()
    &&& forall|k: int|
        0 <= k < a.len() ==> #[trigger] b[k] == (if a[k].id == id {
            Slot { id: a[k].id, entity: a[k].entity.placed(p) }
        } else {
            a[k]
        })
}

/// Ids a manager hands out before it stops taking new actors.
pub const ID_LIMIT: usize = 0x7fff_ffff;

/// Fewest and one past the most fish in a new swarm.
pub const SWARM_MIN: i64 = 10;

pub const SWARM_MAX: i64 = 30;

/// One past the loosest formation a new swarm gets.
pub const RELAX_MAX: i64 = 9;

pub struct Game {
    pub water: Water,
    pub bubbles_manager: BubblesManager,
    pub bullet_manager: BulletManager,
    pub fish_swarm_manager: FishSwarmManager,
    pub mine_manager: MineManager,
    pub ship: Ship,
    pub rng: RandomSource,
    /// Swarms started so far; each new swarm takes the next palette index.
    pub swarms_started: usize,
}

impl Game {
    pub open spec fn wf(&self) -> bool {
        &&& self.water.wf()
        &&& self.bubbles_manager.wf()
        &&& self.bubbles_manager.entities_ok()
        &&& self.bullet_manager.wf()
        &&& self.bullet_manager.entities_ok()
        &&& self.fish_swarm_manager.wf()
        &&& self.fish_swarm_manager.entities_ok()
        &&& self.mine_manager.wf()
        &&& self.mine_manager.entities_ok()
        &&& self.ship.wf()
    }

    /// A fresh world whose every random choice is drawn from a source seeded with `seed`.
    pub fn new(seed: u64) -> (r: Game)
        ensures
            r.wf(),
            r.water.arena_x == 0,
            r.water.surfaces@.len() == 1,
            r.bubbles_manager.slots@.len() == 0,
            r.bullet_manager.slots@.len() == 0,
            r.fish_swarm_manager.slots@.len() == 0,
            r.mine_manager.slots@.len() == 0,
    {
        Game {
            water: Water::new(),
            bubbles_manager: BubblesManager::new(),
            bullet_manager: BulletManager::new(),
            fish_swarm_manager: FishSwarmManager::new(),
            mine_manager: MineManager::new(),
            ship: Ship::new(),
            rng: RandomSource::new(seed),
            swarms_started: 0,
        }
    }

    /// Advances the world by `dt` microseconds while it scrolls `scroll_delta`
    /// further left. Every flat terrain sample appended becomes a mine; a new
    /// swarm starts whenever no swarm's lead fish is in the last quarter of
    /// the window. Returns the terrain's spawn events, in order.
    #[verifier::rlimit(100)]
    pub fn advance_frame(&mut self, dt: i64, scroll_delta: i64) -> (events: Vec<SpawnEvent>)
        requires
            old(self).wf(),
            0 <= dt <= MAX_DT,
            0 <= scroll_delta,
            old(self).water.arena_x - scroll_delta >= -SCROLL_LIMIT,
        ensures
            final(self).wf(),
            final(self).water.arena_x == old(self).water.arena_x - scroll_delta,
            final(self).water.covered(),
            events@.len() == 0 <==> old(self).water.surfaces@.last().pos.x + final(self).water.arena_x
                >= WINDOW_WIDTH,
            scroll_delta == 0 && old(self).water.covered() ==> events@.len() == 0
                && final(self).water.surfaces@ == old(self).water.surfaces@,
            final(self).bullet_manager.slots@ == old(self).bullet_manager.slots@.map_values(
                step_slot(dt as int),
            ).filter(unfinished()),
            exists|m1: Seq<Slot<Bubbles>>, mid: Seq<Slot<Bubbles>>|
                #[trigger] bubbles_stepped(
                    m1,
                    mid,
                    dt as int,
                    final(self).water.surface_verts.layer_a@,
                ) && trail_moved(
                    mid.filter(unfinished()),
                    final(self).bubbles_manager.slots@,
                    old(self).ship.bubbles_id,
                    Point { x: (old(self).ship.pos.x + TRAIL_DX) as i64, y: final(self).ship.pos.y },
                ) && (old(self).mine_manager.slots@.len() == 0 ==> m1 == old(
                    self,
                ).bubbles_manager.slots@),
            final(self).ship.pos.x == old(self).ship.pos.x,
            exists|i: int|
                is_surface_index(final(self).water.surface_verts.layer_a@, old(self).ship.pos.x as int, i)
                    && final(self).ship.pos.y == settle(
                    old(self).ship.pos.y as int,
                    final(self).water.surface_verts.layer_a@[i].y + SHIP_CLEARANCE,
                    WINDOW_HEIGHT - SHIP_CLEARANCE,
                ),
            exists|mid: Seq<Slot<FishSwarm>>|
                #[trigger] swarms_stepped(
                    old(self).fish_swarm_manager.slots@,
                    mid,
                    dt as int,
                    final(self).water.surface_verts.layer_a@,
                ) && {
                    let kept = mid.filter(unfinished());
                    let slots = final(self).fish_swarm_manager.slots@;
                    if (exists|i: int| 0 <= i < mid.len() && lead_far(#[trigger] mid[i].entity))
                        || old(self).fish_swarm_manager.last_id >= ID_LIMIT {
                        slots == kept
                    } else {
                        slots.len() == kept.len() + 1 && slots.drop_last() == kept
                    }
                },
            old(self).mine_manager.last_id + events@.len() < ID_LIMIT && old(
                self,
            ).bubbles_manager.last_id < ID_LIMIT && old(self).mine_manager.slots@.len() < ID_LIMIT
                ==> exists|mid: Seq<Slot<Mine>>|
                #[trigger] mines_stepped(
                    old(self).mine_manager.slots@,
                    mid,
                    final(self).water.arena_x as int,
                    dt as int,
                    old(self).ship.pos.y as int,
                    old(self).water.surface_verts.layer_a@,
                ) && final(self).mine_manager.slots@.subrange(
                    0,
                    final(self).mine_manager.slots@.len() - mines_for(events@, old(self).ship.pos).len(),
                ) == mid.filter(unfinished()),
            old(self).mine_manager.last_id + events@.len() < ID_LIMIT ==> {
                let spawned = mines_for(events@, old(self).ship.pos);
                let slots = final(self).mine_manager.slots@;
                &&& slots.len() >= spawned.len()
                &&& forall|k: int|
                    0 <= k < spawned.len() ==> #[trigger] slots[slots.len() - spawned.len() + k].entity
                        == spawned[k]
            },
    {
        let arena_x = self.water.arena_x - scroll_delta;
        self.mine_pass(dt, arena_x);
        let ghost bubbles_after_mines = self.bubbles_manager;
        let ghost mine_mid = choose|mid: Seq<Slot<Mine>>|
            #[trigger] mines_stepped(
                old(self).mine_manager.slots@,
                mid,
                arena_x as int,
                dt as int,
                old(self).ship.pos.y as int,
                old(self).water.surface_verts.layer_a@,
            ) && self.mine_manager.slots@ == mid.filter(unfinished());
        let ghost surfs_before = self.water.surfaces@;
        let events = self.water.update(arena_x, &mut self.rng);
        let ghost ap = choose|ap: Seq<Surface>|
            {
                &&& #[trigger] grown_from(surfs_before.last(), ap, arena_x as int)
                &&& ap.len() == events@.len()
                &&& forall|i: int| 0 <= i < ap.len() ==> #[trigger] events@[i] == event_of(ap[i])
                &&& forall|i: int|
                    0 <= i < ap.len() ==> surfs_before.last().pos.x < #[trigger] ap[i].pos.x
                &&& self.water.surfaces@ == (surfs_before + ap).filter(kept_at(arena_x as int))
            };
        proof {
            let s = surfs_before;
            assert(s[s.len() - 1].pos.x == s[0].pos.x + (s.len() - 1) * SURFACE_WIDTH);
        }
        let ghost chain = self.water.surfaces@;
        let ghost base = self.mine_manager.slots@;
        let mut k: usize = 0;
        while k < events.len()
            invariant
                self.wf(),
                self.water.arena_x == arena_x,
                -SCROLL_LIMIT <= arena_x <= 0,
                self.water.surfaces@ == chain,
                self.ship == old(self).ship,
                self.bullet_manager == old(self).bullet_manager,
                self.fish_swarm_manager == old(self).fish_swarm_manager,
                self.bubbles_manager == bubbles_after_mines,
                self.mine_manager.last_id <= old(self).mine_manager.last_id + k,
                self.mine_manager.slots@.len() >= base.len(),
                self.mine_manager.slots@.subrange(0, base.len() as int) == base,
                k <= events@.len(),
                ap.len() == events@.len(),
                -SURFACE_WIDTH <= surfs_before.last().pos.x,
                grown_from(surfs_before.last(), ap, arena_x as int),
                forall|i: int| 0 <= i < ap.len() ==> #[trigger] events@[i] == event_of(ap[i]),
                forall|i: int|
                    0 <= i < ap.len() ==> surfs_before.last().pos.x < #[trigger] ap[i].pos.x,
                old(self).mine_manager.last_id + events@.len() < ID_LIMIT ==> {
                    let spawned = mines_for(events@.subrange(0, k as int), old(self).ship.pos);
                    &&& self.mine_manager.slots@.len() == base.len() + spawned.len()
                    &&& forall|j: int|
                        0 <= j < spawned.len() ==> #[trigger] self.mine_manager.slots@[base.len()
                            + j].entity == spawned[j]
                },
            decreases events@.len() - k,
        {
            let ev = events[k];
            proof {
                assert(grown_step(before_of(surfs_before.last(), ap, k as int), ap[k as int], arena_x as int));
                assert(events@[k as int] == event_of(ap[k as int]));
                assert(surfs_before.last().pos.x < ap[k as int].pos.x);
                let f = |e: SpawnEvent| e.trigger;
                assert(events@.subrange(0, k + 1) =~= events@.subrange(0, k as int).push(ev));
                events@.subrange(0, k as int).lemma_filter_push(ev, f);
            }
            let ghost before_insert = self.mine_manager.slots@;
            if ev.trigger && self.mine_manager.last_id < ID_LIMIT {
                self.mine_manager.insert(Mine::new(ev.pos, &self.ship));
                proof {
                    assert(self.mine_manager.slots@.subrange(0, base.len() as int)
                        =~= before_insert.subrange(0, base.len() as int));
                }
            }
            k = k + 1;
        }
        proof {
            assert(events@.subrange(0, events@.len() as int) =~= events@);
        }
        let ghost mines_final = self.mine_manager.slots@;
        assert(self.fish_swarm_manager == old(self).fish_swarm_manager);
        let any_far = self.fish_swarm_manager.update(dt, &self.water.surface_verts, &mut self.rng);
        let ghost swarms_kept = self.fish_swarm_manager.slots@;
        let ghost smid = choose|mid: Seq<Slot<FishSwarm>>|
            {
                &&& mid.len() == old(self).fish_swarm_manager.slots@.len()
                &&& forall|i: int|
                    0 <= i < mid.len() ==> #[trigger] mid[i].id == old(self).fish_swarm_manager.slots@[i].id
                        && FishSwarm::update_post(
                        old(self).fish_swarm_manager.slots@[i].entity,
                        mid[i].entity,
                        dt as int,
                        self.water.surface_verts.layer_a@,
                    )
                &&& swarms_kept == mid.filter(unfinished())
                &&& any_far == exists|i: int| 0 <= i < mid.len() && lead_far(#[trigger] mid[i].entity)
            };
        assert(swarms_stepped(
            old(self).fish_swarm_manager.slots@,
            smid,
            dt as int,
            self.water.surface_verts.layer_a@,
        ));
        if !any_far && self.fish_swarm_manager.last_id < ID_LIMIT {
            let count = self.rng.range(SWARM_MIN, SWARM_MAX) as usize;
            let relaxed = self.rng.range(0, RELAX_MAX);
            let swarm = FishSwarm::new(count, relaxed, self.swarms_started, &mut self.rng);
            self.fish_swarm_manager.insert(swarm);
            if self.swarms_started < ID_LIMIT {
                self.swarms_started = self.swarms_started + 1;
            }
        }
        proof {
            if self.fish_swarm_manager.slots@.len() > swarms_kept.len() {
                assert(self.fish_swarm_manager.slots@.drop_last() =~= swarms_kept);
            }
        }
        assert(self.ship == old(self).ship);
        assert(self.bullet_manager == old(self).bullet_manager);
        assert(self.bubbles_manager == bubbles_after_mines);
        let ghost bubbles_mid = self.bubbles_manager.slots@;
        self.settle_frame(dt);
        proof {
            let bm = choose|mid: Seq<Slot<Bubbles>>|
                #[trigger] bubbles_stepped(bubbles_mid, mid, dt as int, self.water.surface_verts.layer_a@)
                    && trail_moved(
                    mid.filter(unfinished()),
                    self.bubbles_manager.slots@,
                    old(self).ship.bubbles_id,
                    Point { x: (old(self).ship.pos.x + TRAIL_DX) as i64, y: self.ship.pos.y },
                );
            assert(bubbles_stepped(bubbles_mid, bm, dt as int, self.water.surface_verts.layer_a@));
        }
        proof {
            let kept = smid.filter(unfinished());
            assert(kept == swarms_kept);
            assert(self.mine_manager.slots@ == mines_final);
            if !any_far && old(self).fish_swarm_manager.last_id < ID_LIMIT {
                assert(self.fish_swarm_manager.slots@.drop_last() == kept);
            } else {
                assert(self.fish_swarm_manager.slots@ == kept);
            }
        }
        events
    }

    /// The hazard pass of a frame: every mine is updated at scroll `arena_x`
    /// against the mesh and the ship as they stood before the frame.
    fn mine_pass(&mut self, dt: i64, arena_x: i64)
        requires
            old(self).wf(),
            0 <= dt <= MAX_DT,
            -SCROLL_LIMIT <= arena_x <= 0,
        ensures
            final(self).wf(),
            final(self).water == old(self).water,
            final(self).ship == old(self).ship,
            final(self).bullet_manager == old(self).bullet_manager,
            final(self).fish_swarm_manager == old(self).fish_swarm_manager,
            final(self).mine_manager.last_id == old(self).mine_manager.last_id,
            old(self).bubbles_manager.last_id < ID_LIMIT && old(self).mine_manager.slots@.len()
                < ID_LIMIT ==> exists|mid: Seq<Slot<Mine>>|
                #[trigger] mines_stepped(
                    old(self).mine_manager.slots@,
                    mid,
                    arena_x as int,
                    dt as int,
                    old(self).ship.pos.y as int,
                    old(self).water.surface_verts.layer_a@,
                ) && final(self).mine_manager.slots@ == mid.filter(unfinished()),
            !(old(self).bubbles_manager.last_id < ID_LIMIT && old(self).mine_manager.slots@.len()
                < ID_LIMIT) ==> final(self).mine_manager == old(self).mine_manager,
            old(self).mine_manager.slots@.len() == 0 ==> final(self).bubbles_manager == old(
                self,
            ).bubbles_manager,
    {
        if self.bubbles_manager.last_id < ID_LIMIT && self.mine_manager.slots.len() < ID_LIMIT {
            self.mine_manager.update(
                dt,
                arena_x,
                &mut self.bubbles_manager,
                &self.ship,
                &self.water.surface_verts,
            );
            proof {
                let mid = choose|mid: Seq<Slot<Mine>>|
                    mid.len() == old(self).mine_manager.slots@.len() && (forall|i: int|
                        0 <= i < mid.len() ==> #[trigger] mid[i].id == old(self).mine_manager.slots@[i].id
                            && Mine::update_post(
                            old(self).mine_manager.slots@[i].entity,
                            mid[i].entity,
                            arena_x as int,
                            dt as int,
                            old(self).ship.pos.y as int,
                            old(self).water.surface_verts.layer_a@,
                        )) && self.mine_manager.slots@ == mid.filter(unfinished());
                assert(mines_stepped(
                    old(self).mine_manager.slots@,
                    mid,
                    arena_x as int,
                    dt as int,
                    old(self).ship.pos.y as int,
                    old(self).water.surface_verts.layer_a@,
                ));
            }
        }
    }

    /// The last passes of a frame of `dt` microseconds: the bubble emitters,
    /// the bullets, then the ship, whose bubble trail follows it.
    fn settle_frame(&mut self, dt: i64)
        requires
            old(self).wf(),
            0 <= dt <= MAX_DT,
        ensures
            final(self).wf(),
            final(self).water == old(self).water,
            final(self).mine_manager == old(self).mine_manager,
            final(self).fish_swarm_manager == old(self).fish_swarm_manager,
            final(self).bullet_manager.slots@ == old(self).bullet_manager.slots@.map_values(
                step_slot(dt as int),
            ).filter(unfinished()),
            final(self).ship.pos.x == old(self).ship.pos.x,
            final(self).ship.bubbles_id == old(self).ship.bubbles_id,
            exists|i: int|
                is_surface_index(old(self).water.surface_verts.layer_a@, old(self).ship.pos.x as int, i)
                    && final(self).ship.pos.y == settle(
                    old(self).ship.pos.y as int,
                    old(self).water.surface_verts.layer_a@[i].y + SHIP_CLEARANCE,
                    WINDOW_HEIGHT - SHIP_CLEARANCE,
                ),
            exists|mid: Seq<Slot<Bubbles>>|
                #[trigger] bubbles_stepped(
                    old(self).bubbles_manager.slots@,
                    mid,
                    dt as int,
                    old(self).water.surface_verts.layer_a@,
                ) && trail_moved(
                    mid.filter(unfinished()),
                    final(self).bubbles_manager.slots@,
                    old(self).ship.bubbles_id,
                    Point { x: (old(self).ship.pos.x + TRAIL_DX) as i64, y: final(self).ship.pos.y },
                ),
    {
        self.bubbles_manager.update(&self.water.surface_verts, dt, &mut self.rng);
        let ghost updated = self.bubbles_manager.slots@;
        let ghost bmid = choose|mid: Seq<Slot<Bubbles>>|
            mid.len() == old(self).bubbles_manager.slots@.len() && (forall|i: int|
                0 <= i < mid.len() ==> slot_updated(
                    #[trigger] old(self).bubbles_manager.slots@[i],
                    mid[i],
                    dt as int,
                    self.water.surface_verts.layer_a@,
                )) && self.bubbles_manager.slots@ == mid.filter(unfinished());
        assert(bubbles_stepped(
            old(self).bubbles_manager.slots@,
            bmid,
            dt as int,
            self.water.surface_verts.layer_a@,
        ));
        self.bullet_manager.update(dt);
        self.ship.update(&mut self.bubbles_manager, &self.water.surface_verts);
        proof {
            let layer = self.water.surface_verts.layer_a@;
            let i = choose|i: int|
                is_surface_index(layer, old(self).ship.pos.x as int, i) && self.ship.y_ofs
                    == self.water.surface_verts.layer_c@[i].y - self.water.surface_verts.layer_b@[i].y
                    && self.ship.pos.y == settle(
                    old(self).ship.pos.y as int,
                    layer[i].y + SHIP_CLEARANCE,
                    WINDOW_HEIGHT - SHIP_CLEARANCE,
                );
            assert(is_surface_index(layer, old(self).ship.pos.x as int, i));
            let p = Point { x: (old(self).ship.pos.x + TRAIL_DX) as i64, y: self.ship.pos.y };
            assert forall|k: int| 0 <= k < updated.len() implies #[trigger] self.bubbles_manager.slots@[k]
                == (if updated[k].id == old(self).ship.bubbles_id {
                Slot { id: updated[k].id, entity: updated[k].entity.placed(p) }
            } else {
                updated[k]
            }) by {}
            assert(trail_moved(updated, self.bubbles_manager.slots@, old(self).ship.bubbles_id, p));
        }
    }

    /// Moves the ship up (negative `dy`) or down.
    pub fn nudge_ship(&mut self, dy: i64)
        requires
            old(self).wf(),
            -SHIP_LIMIT <= dy <= SHIP_LIMIT,
        ensures
            final(self).wf(),
            final(self).ship.pos.y == crate::ship::clamp_ship(old(self).ship.pos.y + dy),
    {
        self.ship.nudge(dy);
    }

    /// Fires the ship's cannon, one bullet at a time: see `Ship::start_bullet`.
    pub fn fire(&mut self)
        requires
            old(self).wf(),
        ensures
            final(self).wf(),
            final(self).ship.pos == old(self).ship.pos,
            old(self).bubbles_manager.last_id < ID_LIMIT && old(self).bullet_manager.last_id
                < ID_LIMIT ==> {
                &&& old(self).bullet_manager.finished_id(old(self).ship.bullet_id) ==> {
                    &&& final(self).bullet_manager.slots@.len() == old(self).bullet_manager.slots@.len() + 1
                    &&& final(self).ship.bullet_id == old(self).bullet_manager.last_id + 1
                    &&& final(self).bullet_manager.slots@.last().entity.pos == (Point {
                        x: (old(self).ship.pos.x + MUZZLE_DX) as i64,
                        y: (old(self).ship.pos.y + MUZZLE_DY) as i64,
                    })
                }
                &&& !old(self).bullet_manager.finished_id(old(self).ship.bullet_id)
                    ==> final(self).bullet_manager.slots@ == old(self).bullet_manager.slots@
            },
    {
        if self.bubbles_manager.last_id < ID_LIMIT && self.bullet_manager.last_id < ID_LIMIT {
            self.ship.start_bullet(&mut self.bubbles_manager, &mut self.bullet_manager);
        }
    }
}

} // verus!
