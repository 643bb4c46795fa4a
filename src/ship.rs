//! The player's craft: held between the terrain surface and a floor near the
//! window bottom, trailing a bubble burst and firing one bullet at a time.
use crate::bubbles::{Bubbles, BubblesManager};
use crate::entity::Slot;
use crate::bullet::{Bullet, BulletManager};
use crate::geom::{clamp, Point, WINDOW_HEIGHT};
use crate::mesh::{get_surface_verts_index, is_surface_index, mesh_ok, SurfaceVerts};
use vstd::prelude::*;

verus! {

/// Ship's distance below the terrain surface that it is pushed back to.
pub const SHIP_CLEARANCE: i64 = 30_000;

/// Most the ship is pushed back per frame.
pub const SHIP_PUSH: i64 = 2_000;

/// Bound on the ship's height, in world units either way.
pub const SHIP_LIMIT: i64 = 1_000_000_000;

/// The ship's fixed screen x.
pub const SHIP_X: i64 = 100_000;

/// The ship's starting height: 100 pixels above the window bottom.
pub const SHIP_START_Y: i64 = 380_000;

/// Muzzle offset from the ship's position, along x.
pub const MUZZLE_DX: i64 = 15_000;

/// Muzzle offset from the ship's position, along y.
pub const MUZZLE_DY: i64 = 10_000;

/// Bubble trail offset from the ship's position, along x.
pub const TRAIL_DX: i64 = 10_000;

/// Bubbles in the burst fired with each bullet.
pub const MUZZLE_BUBBLES: usize = 20;

pub struct Ship {
    pub pos: Point,
    /// Emitter of the burst fired with the last bullet.
    pub bubbles_id: usize,
    /// The last bullet fired.
    pub bullet_id: usize,
    /// Gap between the deep and middle bands under the ship, for drawing.
    pub y_ofs: i64,
}

/// `y` pushed toward `[y_min, y_max]` by at most `SHIP_PUSH`: first up to the
/// minimum, then down to the maximum.
pub open spec fn settle(y: int, y_min: int, y_max: int) -> int {
    let y1 = if y < y_min {
        y + if y_min - y < SHIP_PUSH {
            y_min - y
        } else {
            SHIP_PUSH as int
        }
    } else {
        y
    };
    if y1 > y_max {
        y1 - if y1 - y_max < SHIP_PUSH {
            y1 - y_max
        } else {
            SHIP_PUSH as int
        }
    } else {
        y1
    }
}

impl Ship {
    pub open spec fn wf(&self) -> bool {
        &&& self.pos.x == SHIP_X
        &&& -SHIP_LIMIT <= self.pos.y <= SHIP_LIMIT
    }

    pub fn new() -> (r: Ship)
        ensures
            r.wf(),
            r.pos == (Point { x: SHIP_X, y: SHIP_START_Y }),
            r.bubbles_id == 0 && r.bullet_id == 0 && r.y_ofs == 0,
    {
        Ship { pos: Point { x: SHIP_X, y: SHIP_START_Y }, bubbles_id: 0, bullet_id: 0, y_ofs: 0 }
    }

    /// Moves the ship vertically by `dy`, within its height bound.
    pub fn nudge(&mut self, dy: i64)
        requires
            old(self).wf(),
            -SHIP_LIMIT <= dy <= SHIP_LIMIT,
        ensures
            final(self).wf(),
            final(self).pos.y == clamp_ship(old(self).pos.y + dy),
            final(self).pos.x == old(self).pos.x,
            final(self).bubbles_id == old(self).bubbles_id,
            final(self).bullet_id == old(self).bullet_id,
            final(self).y_ofs == old(self).y_ofs,
    {
        self.pos.y = clamp(self.pos.y + dy, -SHIP_LIMIT, SHIP_LIMIT);
    }

    /// Pushes the ship back below the terrain surface and above the floor, by
    /// at most `SHIP_PUSH` each way, and moves its bubble trail along.
    pub fn update(&mut self, bubbles_manager: &mut BubblesManager, surface_verts: &SurfaceVerts)
        requires
            old(self).wf(),
            old(bubbles_manager).wf(),
            old(bubbles_manager).entities_ok(),
            mesh_ok(surface_verts),
        ensures
            final(self).wf(),
            final(self).pos.x == old(self).pos.x,
            final(self).bubbles_id == old(self).bubbles_id,
            final(self).bullet_id == old(self).bullet_id,
            exists|i: int|
                is_surface_index(surface_verts.layer_a@, old(self).pos.x as int, i) && final(self).y_ofs
                    == surface_verts.layer_c@[i].y - surface_verts.layer_b@[i].y && final(self).pos.y
                    == settle(
                    old(self).pos.y as int,
                    surface_verts.layer_a@[i].y + SHIP_CLEARANCE,
                    WINDOW_HEIGHT - SHIP_CLEARANCE,
                ),
            final(bubbles_manager).wf(),
            final(bubbles_manager).entities_ok(),
            final(bubbles_manager).last_id == old(bubbles_manager).last_id,
            final(bubbles_manager).slots@.len() == old(bubbles_manager).slots@.len(),
            forall|k: int|
                0 <= k < old(bubbles_manager).slots@.len() && old(bubbles_manager).slots@[k].id
                    != old(self).bubbles_id ==> #[trigger] final(bubbles_manager).slots@[k] == old(
                    bubbles_manager,
                ).slots@[k],
            forall|k: int|
                0 <= k < old(bubbles_manager).slots@.len() && old(bubbles_manager).slots@[k].id
                    == old(self).bubbles_id ==> #[trigger] final(bubbles_manager).slots@[k] == (Slot {
                    id: old(self).bubbles_id,
                    entity: Bubbles {
                        pos: Point { x: (old(self).pos.x + TRAIL_DX) as i64, y: final(self).pos.y },
                        ..old(bubbles_manager).slots@[k].entity
                    },
                }),
    {
        let index = get_surface_verts_index(surface_verts, self.pos.x);
        let ghost i = index as int;
        assert(surface_verts.layer_a@[i].bounded());
        assert(surface_verts.layer_b@[i].bounded());
        assert(surface_verts.layer_c@[i].bounded());
        self.y_ofs = surface_verts.layer_c[index].y - surface_verts.layer_b[index].y;
        let y_min = surface_verts.layer_a[index].y + SHIP_CLEARANCE;
        let y_max = WINDOW_HEIGHT - SHIP_CLEARANCE;
        if self.pos.y < y_min {
            let diff = y_min - self.pos.y;
            self.pos.y = self.pos.y + if diff < SHIP_PUSH {
                diff
            } else {
                SHIP_PUSH
            };
        }
        if self.pos.y > y_max {
            let diff = self.pos.y - y_max;
            self.pos.y = self.pos.y - if diff < SHIP_PUSH {
                diff
            } else {
                SHIP_PUSH
            };
        }
        assert(is_surface_index(surface_verts.layer_a@, old(self).pos.x as int, i));
        bubbles_manager.set_pos(self.bubbles_id, Point { x: self.pos.x + TRAIL_DX, y: self.pos.y });
    }

    /// Fires a bullet from the muzzle, with a bubble burst there, unless the
    /// last bullet fired is still live: one bullet at a time.
    pub fn start_bullet(&mut self, bubbles_manager: &mut BubblesManager, bullet_manager: &mut BulletManager)
        requires
            old(self).wf(),
            old(bubbles_manager).wf(),
            old(bubbles_manager).entities_ok(),
            old(bubbles_manager).last_id < usize::MAX,
            old(bullet_manager).wf(),
            old(bullet_manager).entities_ok(),
            old(bullet_manager).last_id < usize::MAX,
        ensures
            final(self).wf(),
            final(self).pos == old(self).pos,
            final(bubbles_manager).wf(),
            final(bubbles_manager).entities_ok(),
            final(bullet_manager).wf(),
            final(bullet_manager).entities_ok(),
            old(bullet_manager).finished_id(old(self).bullet_id) ==> {
                &&& final(self).bullet_id == old(bullet_manager).last_id + 1
                &&& final(bullet_manager).slots@ == old(bullet_manager).slots@.push(
                    crate::entity::Slot {
                        id: final(self).bullet_id,
                        entity: Bullet {
                            pos: Point {
                                x: (old(self).pos.x + MUZZLE_DX) as i64,
                                y: (old(self).pos.y + MUZZLE_DY) as i64,
                            },
                            vel: Point { x: crate::bullet::BULLET_VX, y: crate::bullet::BULLET_VY },
                            vel_decay: crate::bullet::DECAY_START,
                            finished: false,
                        },
                    },
                )
                &&& final(self).bubbles_id == old(bubbles_manager).last_id + 1
                &&& final(bubbles_manager).slots@.len() == old(bubbles_manager).slots@.len() + 1
                &&& final(bubbles_manager).slots@.drop_last() == old(bubbles_manager).slots@
                &&& final(bubbles_manager).slots@.last().id == final(self).bubbles_id
                &&& Bubbles::fresh_at(
                    final(bubbles_manager).slots@.last().entity,
                    MUZZLE_BUBBLES,
                    Point { x: 0, y: 0 },
                )
            },
            !old(bullet_manager).finished_id(old(self).bullet_id) ==> {
                &&& *final(self) == *old(self)
                &&& final(bullet_manager).slots@ == old(bullet_manager).slots@
                &&& final(bubbles_manager).slots@ == old(bubbles_manager).slots@
            },
    {
        if bullet_manager.is_finished(self.bullet_id) {
            let muzzle = Point { x: self.pos.x + MUZZLE_DX, y: self.pos.y + MUZZLE_DY };
            self.bullet_id = bullet_manager.insert(Bullet::new(muzzle));
            self.bubbles_id = bubbles_manager.add_bubbles(MUZZLE_BUBBLES);
        }
    }
}

pub open spec fn clamp_ship(y: int) -> int {
    crate::geom::clamp_spec(y, -SHIP_LIMIT, SHIP_LIMIT as int)
}

} // verus!
