//! The player's projectile: constant horizontal speed, a vertical speed scaled
//! every frame by a factor that itself decays, retired on leaving the window.
use crate::entity::{unfinished, Entity, EntityManager, Slot};
use crate::geom::{
    clamp_coord, clamp_spec, in_coord_range, tdiv, travel, travel_spec, Point, COORD_LIMIT,
    MAX_DT, MICROS, MIN_FRAME, WINDOW_HEIGHT, WINDOW_WIDTH,
};
use vstd::prelude::*;

verus! {

/// Horizontal speed, in world units per second.
pub const BULLET_VX: i64 = 300_000;

/// Initial vertical speed, in world units per second.
pub const BULLET_VY: i64 = 10_000;

/// Initial per-frame factor on the vertical speed, in millionths.
pub const DECAY_START: i64 = 1_030_000;

/// Per-frame factor on the decay itself, in thousandths.
pub const DECAY_DECAY: i64 = 999;

pub struct Bullet {
    pub pos: Point,
    pub vel: Point,
    /// Factor applied to `vel.y` every frame, in millionths.
    pub vel_decay: i64,
    pub finished: bool,
}

/// Outside the window: left of it, above it, right of it or at or below its bottom.
pub open spec fn out_of_window(p: Point) -> bool {
    p.x < 0 || p.y < 0 || p.x > WINDOW_WIDTH || p.y >= WINDOW_HEIGHT
}

impl Bullet {
    pub open spec fn wf(&self) -> bool {
        &&& self.pos.bounded()
        &&& self.vel.x == BULLET_VX
        &&& in_coord_range(self.vel.y as int)
        &&& 0 <= self.vel_decay <= DECAY_START
    }

    /// The bullet one frame of `dt` microseconds later.
    pub open spec fn stepped(self, dt: int) -> Bullet {
        if self.finished {
            self
        } else {
            let pos = Point {
                x: clamp_spec(self.pos.x + travel_spec(self.vel.x as int, dt), -COORD_LIMIT, COORD_LIMIT as int) as i64,
                y: clamp_spec(self.pos.y + travel_spec(self.vel.y as int, dt), -COORD_LIMIT, COORD_LIMIT as int) as i64,
            };
            let vel_decay = (self.vel_decay * DECAY_DECAY / 1000) as i64;
            let vy = clamp_spec(tdiv(self.vel.y * vel_decay, 1_000_000), -COORD_LIMIT, COORD_LIMIT as int) as i64;
            Bullet { pos, vel: Point { x: self.vel.x, y: vy }, vel_decay, finished: out_of_window(pos) }
        }
    }

    /// A bullet fired from `pos`.
    pub fn new(pos: Point) -> (r: Bullet)
        requires
            pos.bounded(),
        ensures
            r.wf(),
            r.pos == pos,
            r.vel == (Point { x: BULLET_VX, y: BULLET_VY }),
            r.vel_decay == DECAY_START,
            !r.finished,
    {
        Bullet { pos, vel: Point { x: BULLET_VX, y: BULLET_VY }, vel_decay: DECAY_START, finished: false }
    }

    /// Moves the bullet by one frame of `dt` microseconds, then decays its
    /// vertical speed; it finishes once it is outside the window.
    pub fn update(&mut self, dt: i64)
        requires
            old(self).wf(),
            0 <= dt <= MAX_DT,
        ensures
            final(self).wf(),
            *final(self) == old(self).stepped(dt as int),
    {
        if self.finished {
            return;
        }
        let x = clamp_coord(self.pos.x + travel(self.vel.x, dt));
        let y = clamp_coord(self.pos.y + travel(self.vel.y, dt));
        self.pos = Point { x, y };
        self.vel_decay = self.vel_decay * DECAY_DECAY / 1000;
        proof {
            assert(-COORD_LIMIT * DECAY_START <= self.vel.y * self.vel_decay <= COORD_LIMIT * DECAY_START)
                by (nonlinear_arith)
                requires
                    in_coord_range(self.vel.y as int),
                    0 <= self.vel_decay <= DECAY_START,
            ;
        }
        let vy = clamp_coord(self.vel.y * self.vel_decay / 1_000_000);
        self.vel = Point { x: self.vel.x, y: vy };
        if x < 0 || y < 0 || x > WINDOW_WIDTH || y >= WINDOW_HEIGHT {
            self.finished = true;
        }
    }
}

impl Entity for Bullet {
    open spec fn finished(&self) -> bool {
        self.finished
    }

    open spec fn inv(&self) -> bool {
        self.wf()
    }

    open spec fn placed(self, pos: Point) -> Self {
        Bullet { pos, ..self }
    }

    fn is_finished(&self) -> (r: bool) {
        self.finished
    }

    fn set_pos(&mut self, pos: Point) {
        self.pos = pos;
    }
}

/// The bullet `n` frames of `dt` microseconds after `b`.
pub open spec fn bullet_after(b: Bullet, dt: int, n: nat) -> Bullet
    decreases n,
{
    if n == 0 {
        b
    } else {
        bullet_after(b, dt, (n - 1) as nat).stepped(dt)
    }
}

proof fn lemma_bullet_track(b: Bullet, dt: int, n: nat)
    requires
        b.wf(),
        !b.finished,
        MIN_FRAME <= dt <= MAX_DT,
    ensures
        bullet_after(b, dt, n).wf(),
        !bullet_after(b, dt, n).finished ==> bullet_after(b, dt, n).pos.x == b.pos.x + n
            * travel_spec(BULLET_VX as int, dt),
        !bullet_after(b, dt, n).finished && n >= 1 ==> bullet_after(b, dt, n).pos.x
            <= WINDOW_WIDTH,
    decreases n,
{
    let d = travel_spec(BULLET_VX as int, dt);
    assert(0 <= BULLET_VX * dt <= BULLET_VX * MAX_DT) by (nonlinear_arith)
        requires
            0 <= dt <= MAX_DT,
    ;
    vstd::arithmetic::div_mod::lemma_div_is_ordered(BULLET_VX * dt, BULLET_VX * MAX_DT, MICROS as int);
    vstd::arithmetic::div_mod::lemma_div_pos_is_pos(BULLET_VX * dt, MICROS as int);
    if n == 0 {
        assert(bullet_after(b, dt, n) == b);
        assert(n * d == 0) by (nonlinear_arith)
            requires
                n == 0,
        ;
    } else {
        lemma_bullet_track(b, dt, (n - 1) as nat);
        let p = bullet_after(b, dt, (n - 1) as nat);
        let q = bullet_after(b, dt, n);
        assert(q == p.stepped(dt));
        assert(0 <= d <= BULLET_VX);
        if !p.finished {
            assert(0 <= p.vel_decay * DECAY_DECAY / 1000 <= DECAY_START) by (nonlinear_arith)
                requires
                    0 <= p.vel_decay <= DECAY_START,
            ;
            vstd::arithmetic::div_mod::lemma_div_is_ordered(p.vel_decay * DECAY_DECAY, DECAY_START * 1000, 1000);
            vstd::arithmetic::div_mod::lemma_div_pos_is_pos(p.vel_decay * DECAY_DECAY, 1000);
            let m = (n - 1) as nat;
            assert(p.pos.x == b.pos.x + m * d);
            assert(m * d + d == n * d) by (nonlinear_arith)
                requires
                    m == n - 1,
            ;
            let v = p.pos.x + travel_spec(p.vel.x as int, dt);
            assert(v == p.pos.x + d);
            if !q.finished {
                assert(q.pos.x <= WINDOW_WIDTH);
                assert(v <= COORD_LIMIT);
                assert(q.pos.x == v);
            }
        }
    }
}

/// A live bullet moving through frames of at least a millisecond leaves the
/// window, and finishes, within `(WINDOW_WIDTH - x) / d + 1` frames, `d` being
/// the distance it covers in one frame.
pub proof fn lemma_bullet_retires(b: Bullet, dt: int, n: nat)
    requires
        b.wf(),
        !b.finished,
        MIN_FRAME <= dt <= MAX_DT,
        n >= 1,
        n * travel_spec(BULLET_VX as int, dt) > WINDOW_WIDTH - b.pos.x,
    ensures
        bullet_after(b, dt, n).finished,
{
    lemma_bullet_track(b, dt, n);
}

/// A slot with its bullet one frame of `dt` microseconds later.
pub open spec fn step_slot(dt: int) -> spec_fn(Slot<Bullet>) -> Slot<Bullet> {
    |s: Slot<Bullet>| Slot { id: s.id, entity: s.entity.stepped(dt) }
}

/// A frame of zero length leaves a live bullet inside the window where it is,
/// and live.
pub proof fn lemma_bullet_idle(b: Bullet)
    requires
        b.wf(),
        !b.finished,
        !out_of_window(b.pos),
    ensures
        b.stepped(0).pos == b.pos,
        !b.stepped(0).finished,
{
}

impl EntityManager<Bullet> {
    /// Advances every bullet by one frame, then retires those that left the window.
    pub fn update(&mut self, dt: i64) -> (empty: bool)
        requires
            old(self).wf(),
            forall|i: int| 0 <= i < old(self).slots@.len() ==> (#[trigger] old(self).slots@[i]).entity.wf(),
            0 <= dt <= MAX_DT,
        ensures
            final(self).wf(),
            forall|i: int| 0 <= i < final(self).slots@.len() ==> (#[trigger] final(self).slots@[i]).entity.wf(),
            final(self).last_id == old(self).last_id,
            final(self).slots@ == old(self).slots@.map_values(step_slot(dt as int)).filter(
                unfinished(),
            ),
            empty == (final(self).slots@.len() == 0),
    {
        let ghost before = self.slots@;
        let n = self.slots.len();
        let mut i: usize = 0;
        while i < n
            invariant
                self.wf(),
                self.last_id == old(self).last_id,
                n == self.slots@.len(),
                n == before.len(),
                i <= n,
                0 <= dt <= MAX_DT,
                forall|j: int| 0 <= j < n ==> (#[trigger] self.slots@[j]).entity.wf(),
                forall|j: int| 0 <= j < n ==> #[trigger] self.slots@[j].id == before[j].id,
                forall|j: int| 0 <= j < i ==> #[trigger] self.slots@[j].entity == before[j].entity.stepped(dt as int),
                forall|j: int| i <= j < n ==> #[trigger] self.slots@[j].entity == before[j].entity,
            decreases n - i,
        {
            self.slots[i].entity.update(dt);
            i = i + 1;
        }
        proof {
            assert forall|j: int| 0 <= j < n implies #[trigger] self.slots@[j] == before.map_values(
                step_slot(dt as int),
            )[j] by {
                assert(self.slots@[j].id == before[j].id);
                assert(self.slots@[j].entity == before[j].entity.stepped(dt as int));
            }
            assert(self.slots@ =~= before.map_values(step_slot(dt as int)));
        }
        let ghost mid = self.slots@;
        let empty = self.retire_finished();
        proof {
            let stepped = before.map_values(step_slot(dt as int));
            let kept = self.slots@;
            assert forall|i: int| 0 <= i < kept.len() implies (#[trigger] kept[i]).entity.wf() by {
                stepped.lemma_filter_contains_rev(unfinished(), kept[i]);
                let j = choose|j: int| 0 <= j < stepped.len() && stepped[j] == kept[i];
                assert(stepped[j] == mid[j]);
            }
        }
        empty
    }
}

pub type BulletManager = EntityManager<Bullet>;

} // verus!
