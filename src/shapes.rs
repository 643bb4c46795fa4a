//! Outlines of the actors, as triangle-strip vertex lists in screen units.
use crate::geom::{tdiv, Point, COORD_LIMIT};
use crate::trig::{cos_milli, cos_spec, sin_milli, sin_spec};
use vstd::prelude::*;

verus! {

/// Coordinates an outline may be drawn around.
pub const SHAPE_LIMIT: i64 = 1_000_000_000;

pub open spec fn in_shape_range(p: Point) -> bool {
    -SHAPE_LIMIT <= p.x <= SHAPE_LIMIT && -SHAPE_LIMIT <= p.y <= SHAPE_LIMIT
}

pub open spec fn offset(x: int, y: int, dx: int, dy: int) -> Point {
    Point { x: (x + dx) as i64, y: (y + dy) as i64 }
}

/// A diamond around a bullet, or nothing for one left of the window.
pub fn bullet_vertices(x: i64, y: i64) -> (r: Vec<Point>)
    requires
        in_shape_range(Point { x, y }),
    ensures
        x > 0 ==> r@ == seq![
            offset(x as int, y as int, 0, -5000),
            offset(x as int, y as int, -5000, 0),
            offset(x as int, y as int, 5000, 0),
            offset(x as int, y as int, 0, 5000),
        ],
        x <= 0 ==> r@.len() == 0,
{
    if x > 0 {
        vec![
            Point { x, y: y - 5000 },
            Point { x: x - 5000, y },
            Point { x: x + 5000, y },
            Point { x, y: y + 5000 },
        ]
    } else {
        Vec::new()
    }
}

/// The ship's hull, from the rear to the cockpit.
pub fn get_ship_vertices(x: i64, y: i64) -> (r: Vec<Point>)
    requires
        in_shape_range(Point { x, y }),
    ensures
        r@ == seq![
            offset(x as int, y as int, 0, -5000),
            offset(x as int, y as int, 0, 5000),
            offset(x as int, y as int, 15_000, -10_000),
            offset(x as int, y as int, 15_000, 10_000),
            offset(x as int, y as int, 30_000, -5000),
            offset(x as int, y as int, 30_000, 5000),
            offset(x as int, y as int, 40_000, -5000),
            offset(x as int, y as int, 45_000, 5000),
            offset(x as int, y as int, 45_000, -5000),
        ],
{
    vec![
        Point { x, y: y - 5000 },
        Point { x, y: y + 5000 },
        Point { x: x + 15_000, y: y - 10_000 },
        Point { x: x + 15_000, y: y + 10_000 },
        Point { x: x + 30_000, y: y - 5000 },
        Point { x: x + 30_000, y: y + 5000 },
        Point { x: x + 40_000, y: y - 5000 },
        Point { x: x + 45_000, y: y + 5000 },
        Point { x: x + 45_000, y: y - 5000 },
    ]
}

/// A mine: its base, its body and its tip.
pub fn get_mine_vertices(x: i64, y: i64) -> (r: Vec<Point>)
    requires
        in_shape_range(Point { x, y }),
    ensures
        r@ == seq![
            offset(x as int, y as int, 0, 2000),
            offset(x as int, y as int, 6000, 6000),
            offset(x as int, y as int, -6000, 6000),
            offset(x as int, y as int, 6000, -5000),
            offset(x as int, y as int, -6000, -5000),
            offset(x as int, y as int, 0, -12_000),
        ],
{
    vec![
        Point { x, y: y + 2000 },
        Point { x: x + 6000, y: y + 6000 },
        Point { x: x - 6000, y: y + 6000 },
        Point { x: x + 6000, y: y - 5000 },
        Point { x: x - 6000, y: y - 5000 },
        Point { x, y: y - 12_000 },
    ]
}

/// `p` rotated by `angle` milliradians about `origin`.
pub open spec fn rotate_spec(p: Point, angle: int, origin: Point) -> Point {
    let c = cos_spec(angle);
    let s = sin_spec(angle);
    let tx = p.x - origin.x;
    let ty = p.y - origin.y;
    Point {
        x: (tdiv(tx * c - ty * s, 1000) + origin.x) as i64,
        y: (tdiv(tx * s + ty * c, 1000) + origin.y) as i64,
    }
}

pub fn rotate_point(p: Point, angle: i64, origin: Point) -> (r: Point)
    requires
        in_shape_range(p),
        in_shape_range(origin),
        -COORD_LIMIT <= angle <= COORD_LIMIT,
    ensures
        r == rotate_spec(p, angle as int, origin),
{
    let c = cos_milli(angle);
    let s = sin_milli(angle);
    let tx = p.x - origin.x;
    let ty = p.y - origin.y;
    proof {
        assert(-2 * SHAPE_LIMIT * 1000 <= tx * c <= 2 * SHAPE_LIMIT * 1000) by (nonlinear_arith)
            requires
                -2 * SHAPE_LIMIT <= tx <= 2 * SHAPE_LIMIT,
                -1000 <= c <= 1000,
        ;
        assert(-2 * SHAPE_LIMIT * 1000 <= ty * s <= 2 * SHAPE_LIMIT * 1000) by (nonlinear_arith)
            requires
                -2 * SHAPE_LIMIT <= ty <= 2 * SHAPE_LIMIT,
                -1000 <= s <= 1000,
        ;
        assert(-2 * SHAPE_LIMIT * 1000 <= tx * s <= 2 * SHAPE_LIMIT * 1000) by (nonlinear_arith)
            requires
                -2 * SHAPE_LIMIT <= tx <= 2 * SHAPE_LIMIT,
                -1000 <= s <= 1000,
        ;
        assert(-2 * SHAPE_LIMIT * 1000 <= ty * c <= 2 * SHAPE_LIMIT * 1000) by (nonlinear_arith)
            requires
                -2 * SHAPE_LIMIT <= ty <= 2 * SHAPE_LIMIT,
                -1000 <= c <= 1000,
        ;
    }
    Point { x: (tx * c - ty * s) / 1000 + origin.x, y: (tx * s + ty * c) / 1000 + origin.y }
}

/// Offset of outline point `k` in `[0, 10)` from the fish's center, before
/// rotation: tail fin, waist, body and head, each a pair of points above and
/// below the axis. `tail_x` is where the fin ends; `scale` is the size.
pub open spec fn fish_offset(k: int, tail_x: int, scale: int) -> (int, int) {
    if k == 0 {
        (tail_x, -2 * scale)
    } else if k == 1 {
        (tail_x, 2 * scale)
    } else if k == 2 {
        (-5 * scale, -(scale / 2))
    } else if k == 3 {
        (-5 * scale, scale / 2)
    } else if k == 4 {
        (-3 * scale, -2 * scale)
    } else if k == 5 {
        (-3 * scale, 2 * scale)
    } else if k == 6 {
        (-2 * scale, -2 * scale)
    } else if k == 7 {
        (-2 * scale, 2 * scale)
    } else if k == 8 {
        (scale, -(scale / 2))
    } else {
        (scale, scale / 2)
    }
}

fn fish_offset_exec(k: usize, tail_x: i64, scale: i64) -> (r: (i64, i64))
    requires
        0 <= scale <= 10_000,
        -80_000 <= tail_x <= 0,
    ensures
        (r.0 as int, r.1 as int) == fish_offset(k as int, tail_x as int, scale as int),
        -80_000 <= r.0 <= 80_000,
        -80_000 <= r.1 <= 80_000,
{
    if k == 0 {
        (tail_x, 0 - 2 * scale)
    } else if k == 1 {
        (tail_x, 2 * scale)
    } else if k == 2 {
        (0 - 5 * scale, 0 - scale / 2)
    } else if k == 3 {
        (0 - 5 * scale, scale / 2)
    } else if k == 4 {
        (0 - 3 * scale, 0 - 2 * scale)
    } else if k == 5 {
        (0 - 3 * scale, 2 * scale)
    } else if k == 6 {
        (0 - 2 * scale, 0 - 2 * scale)
    } else if k == 7 {
        (0 - 2 * scale, 2 * scale)
    } else if k == 8 {
        (scale, 0 - scale / 2)
    } else {
        (scale, scale / 2)
    }
}

/// Where a fish at `(fish_x, fish_y)` is drawn: bobbing by its wobble phase.
pub open spec fn fish_center(wobble: int, fish_x: int, fish_y: int, scale: int) -> Point {
    let pw = (sin_spec(wobble / 1000) + 1000) / 2;
    Point { x: (fish_x + pw * scale / 4000) as i64, y: (fish_y + pw * scale / 1000) as i64 }
}

/// How far the tail is swung, in thousandths.
pub open spec fn tail_wobble(wobble: int, fish_x: int, fish_y: int) -> int {
    (sin_spec(wobble * 3 / 100 + fish_x + fish_y) + 1000) / 2
}

/// End of the tail fin behind the center.
pub open spec fn tail_end(tail: int, scale: int) -> int {
    -((7000 + tail) * scale / 1000)
}

/// A fish's outline: the ten `fish_offset` points around its bobbing
/// center, rotated about it by its heading `rotation`.
pub fn fish_vertices(wobble: i64, fish_x: i64, fish_y: i64, rotation: i64, scale: i64) -> (r: Vec<Point>)
    requires
        0 <= wobble <= 100_000_000_000_000,
        -100_000_000 <= fish_x <= 100_000_000,
        -100_000_000 <= fish_y <= 100_000_000,
        -COORD_LIMIT <= rotation <= COORD_LIMIT,
        0 <= scale <= 10_000,
    ensures
        r@.len() == 10,
        forall|k: int|
            0 <= k < 10 ==> {
                let c = fish_center(wobble as int, fish_x as int, fish_y as int, scale as int);
                let (dx, dy) = fish_offset(
                    k,
                    tail_end(tail_wobble(wobble as int, fish_x as int, fish_y as int), scale as int),
                    scale as int,
                );
                #[trigger] r@[k] == rotate_spec(offset(c.x as int, c.y as int, dx, dy), rotation as int, c)
            },
{
    let pw = (sin_milli(wobble / 1000) + 1000) / 2;
    let tw = (sin_milli(wobble * 3 / 100 + fish_x + fish_y) + 1000) / 2;
    proof {
        assert(0 <= pw * scale <= 1000 * 10_000) by (nonlinear_arith)
            requires
                0 <= pw <= 1000,
                0 <= scale <= 10_000,
        ;
        assert(0 <= (7000 + tw) * scale <= 8000 * 10_000) by (nonlinear_arith)
            requires
                0 <= tw <= 1000,
                0 <= scale <= 10_000,
        ;
        vstd::arithmetic::div_mod::lemma_div_is_ordered(pw * scale, 10_000_000, 4000);
        vstd::arithmetic::div_mod::lemma_div_is_ordered(pw * scale, 10_000_000, 1000);
        vstd::arithmetic::div_mod::lemma_div_is_ordered((7000 + tw) * scale, 80_000_000, 1000);
        vstd::arithmetic::div_mod::lemma_div_pos_is_pos(pw * scale, 4000);
        vstd::arithmetic::div_mod::lemma_div_pos_is_pos(pw * scale, 1000);
        vstd::arithmetic::div_mod::lemma_div_pos_is_pos((7000 + tw) * scale, 1000);
    }
    let center = Point { x: fish_x + pw * scale / 4000, y: fish_y + pw * scale / 1000 };
    let tail_x = -((7000 + tw) * scale / 1000);
    let ghost gc = fish_center(wobble as int, fish_x as int, fish_y as int, scale as int);
    let ghost gt = tail_end(tail_wobble(wobble as int, fish_x as int, fish_y as int), scale as int);
    assert(center == gc);
    assert(tail_x == gt);
    let mut r: Vec<Point> = Vec::new();
    let mut k: usize = 0;
    while k < 10
        invariant
            k <= 10,
            r@.len() == k,
            center == gc,
            tail_x == gt,
            0 <= scale <= 10_000,
            -80_000 <= tail_x <= 0,
            -COORD_LIMIT <= rotation <= COORD_LIMIT,
            -200_000_000 <= center.x <= 200_000_000,
            -200_000_000 <= center.y <= 200_000_000,
            forall|j: int|
                0 <= j < k ==> {
                    let (dx, dy) = fish_offset(j, gt, scale as int);
                    #[trigger] r@[j] == rotate_spec(offset(gc.x as int, gc.y as int, dx, dy), rotation as int, gc)
                },
        decreases 10 - k,
    {
        let (dx, dy) = fish_offset_exec(k, tail_x, scale);
        let p = Point { x: center.x + dx, y: center.y + dy };
        r.push(rotate_point(p, rotation, center));
        k = k + 1;
    }
    r
}

} // verus!
