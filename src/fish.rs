//! A target-seeking fish: turns toward its target at a limited rate, moves at
//! a limited speed along its heading, and snaps back below the terrain surface.
use crate::entity::{Entity, EntityManager};
use crate::geom::{
    advance_clock, clamp, clamp_spec, clock_add, tdiv, travel,
    travel_spec, wrap_angle, wrap_angle_spec, Point, CLOCK_LIMIT, COORD_LIMIT, MAX_DT, PI,
    WINDOW_HEIGHT,
};
use crate::mesh::{get_surface_verts_index, is_surface_index, mesh_ok, SurfaceVerts, MESH_TOP};
use crate::trig::{abs, atan2_milli, atan2_spec, cos_milli, cos_spec, sin_milli, sin_spec};
use vstd::prelude::*;

verus! {

/// Top speed along each axis at full heading, in world units per second.
pub const MAX_SPEED: i64 = 40_000;

/// Turn rate, in thousandths of the remaining turn per frame.
pub const TURN_SLOW: i64 = 5;

/// Turn rate when the terrain has risen above the target, in thousandths.
pub const TURN_FAST: i64 = 600;

/// Depth below the terrain surface a fish keeps to.
pub const FISH_DEPTH: i64 = 30_000;

/// Distance on each axis within which a target counts as reached.
pub const REACH: i64 = 10_000;

/// Screen x at or left of which a fish is finished.
pub const LEFT_EXIT: i64 = -90_000;

/// Bound on a fish's stored coordinates.
pub const FISH_LIMIT: i64 = 100_000_000_000;

pub struct Fish {
    pub pos: Point,
    pub finished: bool,
    /// Age clock driving the tail wobble, in microseconds.
    pub wobble: i64,
    pub target_pos: Point,
    /// Heading, in milliradians.
    pub direction: i64,
    pub target_reached: bool,
    /// Smoothed height the fish is drawn at.
    pub draw_pos_y: i64,
    /// Drawing scale, in thousandths.
    pub scale: i64,
    /// Palette index.
    pub fish_type: usize,
    /// Slot in its swarm at the last update.
    pub fish_index: usize,
}

pub open spec fn in_fish_range(v: int) -> bool {
    -FISH_LIMIT <= v <= FISH_LIMIT
}

pub open spec fn clamp_fish(v: int) -> int {
    clamp_spec(v, -FISH_LIMIT, FISH_LIMIT as int)
}

/// `d` limited to `[-limit, limit]`: the step toward a target `d` away.
pub open spec fn step_toward(d: int, limit: int) -> int {
    if d < 0 {
        if d < -limit {
            -limit
        } else {
            d
        }
    } else {
        if d > limit {
            limit
        } else {
            d
        }
    }
}

/// New heading: the old one turned by `factor` thousandths of the shortest
/// turn toward the direction of `(dx, dy)`, wrapped into `[-pi, pi)`.
pub open spec fn steer(direction: int, dx: int, dy: int, factor: int) -> int {
    let diff = wrap_angle_spec(atan2_spec(dy, dx) - direction);
    wrap_angle_spec(direction + tdiv(diff * factor, 1000))
}

/// How far below the surface `y` is, as a fraction of the depth from the
/// surface to the window bottom, in thousandths within `[0, 1000]`; zero
/// where there is no such depth.
pub open spec fn depth_effect(y: int, surface_y: int) -> int {
    let span = WINDOW_HEIGHT - surface_y;
    if span <= 0 {
        0
    } else {
        clamp_spec(tdiv((y - surface_y) * 1000, span), 0, 1000)
    }
}

impl Fish {
    pub open spec fn wf(&self) -> bool {
        &&& in_fish_range(self.pos.x as int)
        &&& in_fish_range(self.pos.y as int)
        &&& in_fish_range(self.target_pos.x as int)
        &&& in_fish_range(self.target_pos.y as int)
        &&& in_fish_range(self.draw_pos_y as int)
        &&& -PI <= self.direction < PI
        &&& 0 <= self.wobble <= CLOCK_LIMIT
    }

    /// The fish after one frame of `dt` microseconds as swarm slot `index`,
    /// with the surface, lowered by the fish depth, at `surface_y`.
    #[verifier::opaque]
    pub open spec fn stepped(self, surface_y: int, dt: int, index: int) -> Fish {
        let snap = surface_y > self.target_pos.y;
        let target = if snap {
            Point { x: self.pos.x, y: surface_y as i64 }
        } else {
            self.target_pos
        };
        let factor = if snap {
            TURN_FAST
        } else {
            TURN_SLOW
        };
        let dx = target.x - self.pos.x;
        let dy = target.y - self.pos.y;
        let direction = steer(self.direction as int, dx, dy, factor as int);
        let lim_x = axis_limit_spec(cos_spec(direction), dt);
        let lim_y = axis_limit_spec(sin_spec(direction), dt);
        let draw_pos_y = smoothed_spec(self.draw_pos_y as int, self.pos.y as int, surface_y);
        let x = clamp_fish(self.pos.x + step_toward(dx, lim_x));
        let y1 = clamp_fish(self.pos.y + step_toward(dy, lim_y));
        let sunk = y1 + draw_pos_y < surface_y;
        let y = if sunk {
            clamp_fish(surface_y - draw_pos_y)
        } else {
            y1
        };
        let near = abs(target.x - x) < REACH && abs(target.y - y) < REACH;
        Fish {
            pos: Point { x: x as i64, y: y as i64 },
            finished: x <= LEFT_EXIT,
            wobble: clock_add(self.wobble as int, dt) as i64,
            target_pos: target,
            direction: direction as i64,
            target_reached: self.target_reached || sunk || near,
            draw_pos_y: draw_pos_y as i64,
            fish_index: index as usize,
            ..self
        }
    }

    /// A fish at `pos`, with its target reached so that it is given a new one.
    pub fn new(pos: Point, scale: i64, fish_type: usize) -> (r: Fish)
        ensures
            r.pos == pos,
            r.scale == scale,
            r.fish_type == fish_type,
            r.target_reached,
            !r.finished,
            r.target_pos == (Point { x: 0, y: 0 }),
            r.direction == 0 && r.wobble == 0 && r.draw_pos_y == 0 && r.fish_index == 0,
    {
        Fish {
            pos,
            finished: false,
            wobble: 0,
            target_pos: Point { x: 0, y: 0 },
            direction: 0,
            target_reached: true,
            draw_pos_y: 0,
            scale,
            fish_type,
            fish_index: 0,
        }
    }

    pub fn set_target_pos(&mut self, pos: Point)
        ensures
            *final(self) == (Fish { target_pos: pos, target_reached: false, ..*old(self) }),
    {
        self.target_pos = pos;
        self.target_reached = false;
    }

    pub fn has_reached_target(&self) -> (r: bool)
        ensures
            r == self.target_reached,
    {
        self.target_reached
    }

    /// One frame of `dt` microseconds as swarm slot `index`: see `stepped`.
    /// A finished fish stays as it is.
    #[verifier::rlimit(60)]
    pub fn update(&mut self, dt: i64, surface_verts: &SurfaceVerts, index: usize)
        requires
            old(self).wf(),
            mesh_ok(surface_verts),
            0 <= dt <= MAX_DT,
        ensures
            final(self).wf(),
            old(self).finished ==> *final(self) == *old(self),
            !old(self).finished ==> exists|i: int|
                is_surface_index(surface_verts.layer_a@, old(self).pos.x as int, i)
                    && *final(self) == old(self).stepped(
                    surface_verts.layer_a@[i].y + FISH_DEPTH,
                    dt as int,
                    index as int,
                ),
    {
        if self.finished {
            return;
        }
        let ghost before = *self;
        proof {
            reveal(Fish::stepped);
        }
        let fi = get_surface_verts_index(surface_verts, self.pos.x);
        assert(surface_verts.layer_a@[fi as int].bounded());
        let surface_y = surface_verts.layer_a[fi].y + FISH_DEPTH;
        assert(MESH_TOP <= surface_verts.layer_a@[fi as int].y <= WINDOW_HEIGHT);
        let snap = surface_y > self.target_pos.y;
        let mut factor = TURN_SLOW;
        if snap {
            self.target_pos = Point { x: self.pos.x, y: surface_y };
            factor = TURN_FAST;
        }
        let dx = self.target_pos.x - self.pos.x;
        let dy = self.target_pos.y - self.pos.y;
        self.direction = steer_exec(self.direction, dx, dy, factor);
        let step_x = step_toward_exec(dx, axis_limit(cos_milli(self.direction), dt));
        let step_y = step_toward_exec(dy, axis_limit(sin_milli(self.direction), dt));
        self.draw_pos_y = smoothed_draw_y(self.draw_pos_y, self.pos.y, surface_y);
        let x = clamp(self.pos.x + step_x, -FISH_LIMIT, FISH_LIMIT);
        self.pos.x = x;
        if x <= LEFT_EXIT {
            self.finished = true;
        }
        self.pos.y = clamp(self.pos.y + step_y, -FISH_LIMIT, FISH_LIMIT);
        if self.pos.y + self.draw_pos_y < surface_y {
            self.pos.y = clamp(surface_y - self.draw_pos_y, -FISH_LIMIT, FISH_LIMIT);
            self.target_reached = true;
        }
        let ex = self.target_pos.x - self.pos.x;
        let ey = self.target_pos.y - self.pos.y;
        if (if ex < 0 {
            -ex
        } else {
            ex
        }) < REACH && (if ey < 0 {
            -ey
        } else {
            ey
        }) < REACH {
            self.target_reached = true;
        }
        self.index_and_clock(index, dt);
        proof {
            assert(is_surface_index(surface_verts.layer_a@, before.pos.x as int, fi as int));
            assert(*self == before.stepped(surface_verts.layer_a@[fi as int].y + FISH_DEPTH, dt as int, index as int));
        }
    }

    fn index_and_clock(&mut self, index: usize, dt: i64)
        requires
            0 <= old(self).wobble <= CLOCK_LIMIT,
            0 <= dt <= MAX_DT,
        ensures
            *final(self) == (Fish {
                fish_index: index,
                wobble: clock_add(old(self).wobble as int, dt as int) as i64,
                ..*old(self)
            }),
    {
        self.fish_index = index;
        self.wobble = advance_clock(self.wobble, dt);
    }
}

/// A frame of zero length leaves a live fish right of the exit where it is
/// along x, and live.
pub proof fn lemma_fish_idle(a: Fish, surface_y: int, index: int)
    requires
        a.wf(),
        !a.finished,
        a.pos.x > LEFT_EXIT,
    ensures
        a.stepped(surface_y, 0, index).pos.x == a.pos.x,
        !a.stepped(surface_y, 0, index).finished,
{
    reveal(Fish::stepped);
}

fn steer_exec(direction: i64, dx: i64, dy: i64, factor: i64) -> (r: i64)
    requires
        -PI <= direction < PI,
        -2 * COORD_LIMIT <= dx <= 2 * COORD_LIMIT,
        -2 * COORD_LIMIT <= dy <= 2 * COORD_LIMIT,
        0 <= factor <= 1000,
    ensures
        r == steer(direction as int, dx as int, dy as int, factor as int),
        -PI <= r < PI,
{
    let desired = atan2_milli(dy, dx);
    let diff = wrap_angle(desired - direction);
    proof {
        assert(-PI * 1000 <= diff * factor <= PI * 1000) by (nonlinear_arith)
            requires
                -PI <= diff < PI,
                0 <= factor <= 1000,
        ;
    }
    wrap_angle(direction + diff * factor / 1000)
}

/// Most a fish moves along one axis in `dt`, given the heading's cosine or
/// sine `t` in thousandths.
pub open spec fn axis_limit_spec(t: int, dt: int) -> int {
    travel_spec(abs(MAX_SPEED * t / 1000), dt)
}

fn axis_limit(t: i64, dt: i64) -> (r: i64)
    requires
        -1000 <= t <= 1000,
        0 <= dt <= MAX_DT,
    ensures
        r == axis_limit_spec(t as int, dt as int),
        0 <= r <= MAX_SPEED,
{
    let m = MAX_SPEED * t / 1000;
    let a = if m < 0 {
        -m
    } else {
        m
    };
    proof {
        assert(-MAX_SPEED * 1000 <= MAX_SPEED * t <= MAX_SPEED * 1000) by (nonlinear_arith)
            requires
                -1000 <= t <= 1000,
        ;
        if MAX_SPEED * t >= 0 {
            vstd::arithmetic::div_mod::lemma_div_is_ordered(MAX_SPEED * t, MAX_SPEED * 1000, 1000);
        } else {
            vstd::arithmetic::div_mod::lemma_div_is_ordered(-(MAX_SPEED * t), MAX_SPEED * 1000, 1000);
        }
        assert(0 <= a * dt <= MAX_SPEED * MAX_DT) by (nonlinear_arith)
            requires
                0 <= a <= MAX_SPEED,
                0 <= dt <= MAX_DT,
        ;
        vstd::arithmetic::div_mod::lemma_div_is_ordered(a * dt, MAX_SPEED * MAX_DT, 1_000_000);
    }
    travel(a, dt)
}

fn step_toward_exec(d: i64, limit: i64) -> (r: i64)
    requires
        limit >= 0,
    ensures
        r == step_toward(d as int, limit as int),
{
    if d < 0 {
        if d < -limit {
            -limit
        } else {
            d
        }
    } else {
        if d > limit {
            limit
        } else {
            d
        }
    }
}

/// The drawn height moved 5% of the way toward the depth-weighted blend of
/// the surface and the fish's height.
pub open spec fn smoothed_spec(draw_y: int, y: int, surface_y: int) -> int {
    let effect = depth_effect(y, surface_y);
    let y_eff = surface_y + tdiv(effect * (y - surface_y), 1000);
    clamp_fish(tdiv(draw_y * 95, 100) + tdiv(y_eff * 5, 100))
}

fn smoothed_draw_y(draw_y: i64, y: i64, surface_y: i64) -> (r: i64)
    requires
        in_fish_range(draw_y as int),
        in_fish_range(y as int),
        MESH_TOP <= surface_y <= WINDOW_HEIGHT + FISH_DEPTH,
    ensures
        r == smoothed_spec(draw_y as int, y as int, surface_y as int),
        in_fish_range(r as int),
{
    let span = WINDOW_HEIGHT - surface_y;
    let effect = if span <= 0 {
        0
    } else {
        clamp((y - surface_y) * 1000 / span, 0, 1000)
    };
    proof {
        assert(-2 * COORD_LIMIT * 1000 <= effect * (y - surface_y) <= 2 * COORD_LIMIT * 1000)
            by (nonlinear_arith)
            requires
                0 <= effect <= 1000,
                -2 * COORD_LIMIT <= y - surface_y <= 2 * COORD_LIMIT,
        ;
        let p = effect * (y - surface_y);
        if p >= 0 {
            vstd::arithmetic::div_mod::lemma_div_is_ordered(p, 2 * COORD_LIMIT * 1000, 1000);
        } else {
            vstd::arithmetic::div_mod::lemma_div_is_ordered(-p, 2 * COORD_LIMIT * 1000, 1000);
        }
    }
    let y_eff = surface_y + effect * (y - surface_y) / 1000;
    clamp(draw_y * 95 / 100 + y_eff * 5 / 100, -FISH_LIMIT, FISH_LIMIT)
}

impl Entity for Fish {
    open spec fn finished(&self) -> bool {
        self.finished
    }

    open spec fn inv(&self) -> bool {
        self.wf()
    }

    open spec fn placed(self, pos: Point) -> Self {
        Fish {
            pos: Point {
                x: clamp_spec(pos.x as int, -FISH_LIMIT, FISH_LIMIT as int) as i64,
                y: clamp_spec(pos.y as int, -FISH_LIMIT, FISH_LIMIT as int) as i64,
            },
            ..self
        }
    }

    fn is_finished(&self) -> (r: bool) {
        self.finished
    }

    fn set_pos(&mut self, pos: Point) {
        self.pos = Point {
            x: clamp(pos.x, -FISH_LIMIT, FISH_LIMIT),
            y: clamp(pos.y, -FISH_LIMIT, FISH_LIMIT),
        };
    }
}

pub type FishManager = EntityManager<Fish>;

} // verus!
