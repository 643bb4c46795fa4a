//! Fixed-point world geometry: positions in milli-pixels, time in microseconds,
//! angles in milliradians.
use vstd::arithmetic::div_mod::lemma_fundamental_div_mod_converse;
use vstd::prelude::*;

verus! {

/// World units per screen pixel.
pub const UNIT: i64 = 1000;

/// Width of the visible window, in world units.
pub const WINDOW_WIDTH: i64 = 640_000;

/// Height of the visible window, in world units.
pub const WINDOW_HEIGHT: i64 = 480_000;

/// Horizontal distance between two consecutive terrain samples, in world units.
pub const SURFACE_WIDTH: i64 = 50_000;

/// Microseconds per second: the time base of every velocity.
pub const MICROS: i64 = 1_000_000;

/// Longest frame the simulation accepts, in microseconds.
pub const MAX_DT: i64 = 1_000_000;

/// Shortest frame the motion laws are stated for, in microseconds.
pub const MIN_FRAME: i64 = 1000;

/// Bound on every coordinate the simulation stores.
pub const COORD_LIMIT: i64 = 1_000_000_000_000;

/// Bound on every stored velocity, in world units per second.
pub const VEL_LIMIT: i64 = 1_000_000_000;

/// Bound on every stored clock, in microseconds.
pub const CLOCK_LIMIT: i64 = 100_000_000_000_000;

/// Half a turn, in milliradians.
pub const PI: i64 = 3142;

/// A full turn, in milliradians.
pub const TWO_PI: i64 = 6284;

/// A 2D point or vector in world units (y grows downward, as on screen).
#[derive(Clone, Copy, Debug, PartialEq, Eq, Structural)]
pub struct Point {
    pub x: i64,
    pub y: i64,
}

pub open spec fn in_coord_range(v: int) -> bool {
    -COORD_LIMIT <= v <= COORD_LIMIT
}

impl Point {
    pub open spec fn bounded(self) -> bool {
        in_coord_range(self.x as int) && in_coord_range(self.y as int)
    }

    pub fn new(x: i64, y: i64) -> (r: Point)
        ensures
            r.x == x,
            r.y == y,
    {
        Point { x, y }
    }

    pub open spec fn zero_spec() -> Point {
        Point { x: 0, y: 0 }
    }

    #[verifier::when_used_as_spec(zero_spec)]
    pub fn zero() -> (r: Point)
        ensures
            r.x == 0,
            r.y == 0,
    {
        Point { x: 0, y: 0 }
    }
}

/// Integer division rounding toward zero, as machine division does.
pub open spec fn tdiv(a: int, b: int) -> int {
    if a >= 0 {
        a / b
    } else {
        -((-a) / b)
    }
}

pub open spec fn clamp_spec(v: int, lo: int, hi: int) -> int {
    if v < lo {
        lo
    } else if v > hi {
        hi
    } else {
        v
    }
}

/// `v` limited to `[lo, hi]`.
pub fn clamp(v: i64, lo: i64, hi: i64) -> (r: i64)
    requires
        lo <= hi,
    ensures
        r == clamp_spec(v as int, lo as int, hi as int),
        lo <= r <= hi,
{
    if v < lo {
        lo
    } else if v > hi {
        hi
    } else {
        v
    }
}

/// `v` limited to the stored coordinate range.
pub fn clamp_coord(v: i64) -> (r: i64)
    ensures
        r == clamp_spec(v as int, -COORD_LIMIT, COORD_LIMIT as int),
        in_coord_range(r as int),
{
    clamp(v, -COORD_LIMIT, COORD_LIMIT)
}

/// `v` limited to the stored velocity range.
pub fn clamp_vel(v: i64) -> (r: i64)
    ensures
        r == clamp_spec(v as int, -VEL_LIMIT, VEL_LIMIT as int),
        -VEL_LIMIT <= r <= VEL_LIMIT,
{
    clamp(v, -VEL_LIMIT, VEL_LIMIT)
}

/// A clock advanced by `dt`, held at its limit.
pub open spec fn clock_add(t: int, dt: int) -> int {
    if t + dt > CLOCK_LIMIT {
        CLOCK_LIMIT as int
    } else {
        t + dt
    }
}

pub fn advance_clock(t: i64, dt: i64) -> (r: i64)
    requires
        0 <= t <= CLOCK_LIMIT,
        0 <= dt <= MAX_DT,
    ensures
        r == clock_add(t as int, dt as int),
        t <= r <= CLOCK_LIMIT,
{
    if t + dt > CLOCK_LIMIT {
        CLOCK_LIMIT
    } else {
        t + dt
    }
}

/// Distance covered in `dt` microseconds at `v` world units per second.
pub open spec fn travel_spec(v: int, dt: int) -> int {
    tdiv(v * dt, MICROS as int)
}

pub fn travel(v: i64, dt: i64) -> (r: i64)
    requires
        -COORD_LIMIT <= v <= COORD_LIMIT,
        0 <= dt <= MAX_DT,
    ensures
        r == travel_spec(v as int, dt as int),
        -COORD_LIMIT <= r <= COORD_LIMIT,
        v >= 0 ==> r >= 0,
        v <= 0 ==> r <= 0,
{
    proof {
        assert(-COORD_LIMIT * MAX_DT <= v * dt <= COORD_LIMIT * MAX_DT && (v <= 0 ==> v * dt <= 0)
            && (v >= 0 ==> v * dt >= 0)) by (nonlinear_arith)
            requires
                -COORD_LIMIT <= v <= COORD_LIMIT,
                0 <= dt <= MAX_DT,
        ;
    }
    let p = v * dt;
    proof {
        if p >= 0 {
            assert((p as int) / (MICROS as int) <= COORD_LIMIT) by (nonlinear_arith)
                requires
                    0 <= p <= COORD_LIMIT * MAX_DT,
            ;
        } else {
            assert(0 <= (-(p as int)) / (MICROS as int) <= COORD_LIMIT) by (nonlinear_arith)
                requires
                    0 < -(p as int) <= COORD_LIMIT * MAX_DT,
            ;
        }
    }
    p / MICROS
}

/// `v` scaled by `num / den`, rounding toward zero.
pub fn scale(v: i64, num: i64, den: i64) -> (r: i64)
    requires
        -COORD_LIMIT <= v <= COORD_LIMIT,
        0 <= num <= 1_000_000,
        0 < den,
    ensures
        r == tdiv(v * num, den as int),
{
    proof {
        assert(-COORD_LIMIT * 1_000_000 <= v * num <= COORD_LIMIT * 1_000_000) by (nonlinear_arith)
            requires
                -COORD_LIMIT <= v <= COORD_LIMIT,
                0 <= num <= 1_000_000,
        ;
    }
    v * num / den
}

/// `s` reduced into one turn, `[0, 2pi)`.
pub fn mod_turn(s: i64) -> (r: i64)
    requires
        -4 * COORD_LIMIT <= s <= 4 * COORD_LIMIT,
    ensures
        r == (s as int) % (TWO_PI as int),
        0 <= r < TWO_PI,
{
    if s >= 0 {
        s % TWO_PI
    } else {
        let q = (-s) % TWO_PI;
        proof {
            let k = (-(s as int)) / (TWO_PI as int);
            assert(-(s as int) == k * TWO_PI + q);
            if q == 0 {
                lemma_fundamental_div_mod_converse(s as int, TWO_PI as int, -k, 0);
            } else {
                lemma_fundamental_div_mod_converse(s as int, TWO_PI as int, -k - 1, TWO_PI - q);
            }
        }
        if q == 0 {
            0
        } else {
            TWO_PI - q
        }
    }
}

/// The shortest signed turn equivalent to `d`: `((d + pi) mod 2pi) - pi`.
pub open spec fn wrap_angle_spec(d: int) -> int {
    (d + PI) % (TWO_PI as int) - PI
}

pub fn wrap_angle(d: i64) -> (r: i64)
    requires
        in_coord_range(d as int),
    ensures
        r == wrap_angle_spec(d as int),
        -PI <= r < PI,
{
    mod_turn(d + PI) - PI
}

} // verus!
