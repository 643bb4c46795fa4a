//! Fixed-point trigonometry on milliradian angles, with results in thousandths.
use crate::geom::{in_coord_range, mod_turn, COORD_LIMIT, PI, TWO_PI};
use vstd::arithmetic::div_mod::lemma_div_is_ordered;
use vstd::prelude::*;

verus! {

/// A quarter turn, in milliradians.
pub const HALF_PI: i64 = 1571;

/// Bhaskara's rational approximation of `1000 * sin(r)` on `[0, pi]`.
pub open spec fn bhaskara(r: int) -> int {
    let q = r * (PI - r);
    (16000 * q) / (5 * PI * PI - 4 * q)
}

/// The sine of `a` (milliradians), in thousandths.
pub open spec fn sin_spec(a: int) -> int {
    let r = a % (TWO_PI as int);
    if r <= PI {
        bhaskara(r)
    } else {
        -bhaskara(r - PI)
    }
}

proof fn lemma_bhaskara_bounds(r: int)
    requires
        0 <= r <= PI,
    ensures
        0 <= r * (PI - r),
        4 * (r * (PI - r)) <= PI * PI,
        0 <= bhaskara(r) <= 1000,
{
    let q = r * (PI - r);
    assert(0 <= q && 4 * q <= PI * PI) by (nonlinear_arith)
        requires
            0 <= r <= PI,
            q == r * (PI - r),
    ;
    let den = 5 * PI * PI - 4 * q;
    assert(16000 * q <= 1000 * den);
    lemma_div_is_ordered(16000 * q, 1000 * den, den);
    assert((1000 * den) / den == 1000) by (nonlinear_arith)
        requires
            den > 0,
    ;
    vstd::arithmetic::div_mod::lemma_div_pos_is_pos(16000 * q, den);
}

pub fn sin_milli(a: i64) -> (r: i64)
    requires
        -4 * COORD_LIMIT <= a <= 4 * COORD_LIMIT,
    ensures
        r == sin_spec(a as int),
        -1000 <= r <= 1000,
{
    let m = mod_turn(a);
    let t = if m <= PI {
        m
    } else {
        m - PI
    };
    proof {
        lemma_bhaskara_bounds(t as int);
    }
    let q = t * (PI - t);
    let b = (16000 * q) / (5 * PI * PI - 4 * q);
    if m <= PI {
        b
    } else {
        -b
    }
}

/// The cosine of `a` (milliradians), in thousandths.
pub open spec fn cos_spec(a: int) -> int {
    sin_spec(a + HALF_PI)
}

pub fn cos_milli(a: i64) -> (r: i64)
    requires
        in_coord_range(a as int),
    ensures
        r == cos_spec(a as int),
        -1000 <= r <= 1000,
{
    sin_milli(a + HALF_PI)
}

/// Polynomial approximation of `atan(z / 1000)` in milliradians, for `z` in `[0, 1000]`.
pub open spec fn atan_unit(z: int) -> int {
    (785_000 * z + 273 * z * (1000 - z)) / 1_000_000
}

proof fn lemma_atan_unit_bounds(z: int)
    requires
        0 <= z <= 1000,
    ensures
        0 <= atan_unit(z) <= 785,
{
    let n = 785_000 * z + 273 * z * (1000 - z);
    assert(0 <= n <= 785_000_000) by (nonlinear_arith)
        requires
            0 <= z <= 1000,
            n == 785_000 * z + 273 * z * (1000 - z),
    ;
    lemma_div_is_ordered(n, 785_000_000, 1_000_000);
    vstd::arithmetic::div_mod::lemma_div_pos_is_pos(n, 1_000_000);
}

fn atan_unit_exec(z: i64) -> (r: i64)
    requires
        0 <= z <= 1000,
    ensures
        r == atan_unit(z as int),
        0 <= r <= 785,
{
    proof {
        lemma_atan_unit_bounds(z as int);
    }
    (785_000 * z + 273 * z * (1000 - z)) / 1_000_000
}

pub open spec fn abs(v: int) -> int {
    if v < 0 {
        -v
    } else {
        v
    }
}

/// The angle of the vector `(dx, dy)` in milliradians, in `[-pi, pi]`; zero for the zero vector.
pub open spec fn atan2_spec(dy: int, dx: int) -> int {
    let ax = abs(dx);
    let ay = abs(dy);
    let base = if ax == 0 && ay == 0 {
        0
    } else if ay <= ax {
        atan_unit(ay * 1000 / ax)
    } else {
        HALF_PI - atan_unit(ax * 1000 / ay)
    };
    let h = if dx < 0 {
        PI - base
    } else {
        base
    };
    if dy < 0 {
        -h
    } else {
        h
    }
}

pub fn atan2_milli(dy: i64, dx: i64) -> (r: i64)
    requires
        -2 * COORD_LIMIT <= dy <= 2 * COORD_LIMIT,
        -2 * COORD_LIMIT <= dx <= 2 * COORD_LIMIT,
    ensures
        r == atan2_spec(dy as int, dx as int),
        -PI <= r <= PI,
{
    let ax = if dx < 0 {
        -dx
    } else {
        dx
    };
    let ay = if dy < 0 {
        -dy
    } else {
        dy
    };
    let base = if ax == 0 && ay == 0 {
        0
    } else if ay <= ax {
        proof {
            lemma_div_is_ordered(ay * 1000, ax * 1000, ax as int);
            assert((ax * 1000) / (ax as int) == 1000) by (nonlinear_arith)
                requires
                    ax > 0,
            ;
            vstd::arithmetic::div_mod::lemma_div_pos_is_pos(ay * 1000, ax as int);
        }
        atan_unit_exec(ay * 1000 / ax)
    } else {
        proof {
            lemma_div_is_ordered(ax * 1000, ay * 1000, ay as int);
            assert((ay * 1000) / (ay as int) == 1000) by (nonlinear_arith)
                requires
                    ay > 0,
            ;
            vstd::arithmetic::div_mod::lemma_div_pos_is_pos(ax * 1000, ay as int);
        }
        HALF_PI - atan_unit_exec(ax * 1000 / ay)
    };
    let h = if dx < 0 {
        PI - base
    } else {
        base
    };
    if dy < 0 {
        -h
    } else {
        h
    }
}

} // verus!
