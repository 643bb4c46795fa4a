//! The terrain sample type, the three-band terrain mesh built from a chain of
//! samples, and the height index that looks up the surface at a given x.
use crate::geom::{in_coord_range, tdiv, Point, COORD_LIMIT, WINDOW_HEIGHT};
use crate::trig::{sin_milli, sin_spec};
use vstd::arithmetic::div_mod::{
    lemma_div_is_ordered, lemma_div_pos_is_pos, lemma_fundamental_div_mod_converse,
};
use vstd::prelude::*;

verus! {

/// Sub-columns interpolated between two consecutive samples.
pub const COLUMNS: usize = 8;

/// Longest sample chain a mesh is built from.
pub const MAX_SAMPLES: usize = 1_000_000;

/// Phase offset of the middle band's wave: `0.4 pi` milliradians.
pub const PHASE_B: i64 = 1257;

/// Phase offset of the deep band's wave: `0.8 pi` milliradians.
pub const PHASE_C: i64 = 2513;

/// Wave scale of the surface band, in world units.
pub const SCALE_A: i64 = 40_000;

/// Wave scale of the middle band, in world units.
pub const SCALE_B: i64 = 30_000;

/// Wave scale of the deep band, in world units.
pub const SCALE_C: i64 = 20_000;

/// One control sample of the terrain chain.
#[derive(Clone, Copy, Debug, PartialEq, Eq, Structural)]
pub struct Surface {
    /// `x` along the chain (unscrolled); `y` is the height above the window bottom.
    pub pos: Point,
    /// Height change from the previous sample, in steps: -1, 0 or +1.
    pub step: i64,
    /// Wave frequency factor, in thousandths.
    pub freq: i64,
    /// Wave amplitude factor, in thousandths.
    pub amplitude: i64,
}

impl Surface {
    pub fn new() -> (r: Surface)
        ensures
            r.pos.x == 0 && r.pos.y == 0,
            r.step == 0 && r.freq == 0 && r.amplitude == 0,
    {
        Surface { pos: Point { x: 0, y: 0 }, step: 0, freq: 0, amplitude: 0 }
    }

    /// A flat sample: the kind that spawns a hazard.
    pub open spec fn trigger(self) -> bool {
        self.step == 0
    }

    pub open spec fn valid(self) -> bool {
        &&& 0 <= self.freq < 1000
        &&& 0 <= self.amplitude < 1000
        &&& 0 <= self.pos.y <= WINDOW_HEIGHT
        &&& in_coord_range(self.pos.x as int)
    }
}

/// Three parallel triangle strips, shallow to deep. Each column of the mesh is
/// two points per layer: the top of the band and the bottom of its fill.
pub struct SurfaceVerts {
    pub layer_a: Vec<Point>,
    pub layer_b: Vec<Point>,
    pub layer_c: Vec<Point>,
}

impl SurfaceVerts {
    pub fn new() -> (r: SurfaceVerts)
        ensures
            r.layer_a@.len() == 0,
            r.layer_b@.len() == 0,
            r.layer_c@.len() == 0,
    {
        SurfaceVerts { layer_a: Vec::new(), layer_b: Vec::new(), layer_c: Vec::new() }
    }
}

/// The x-coordinates of `s` never decrease.
pub open spec fn sorted_x(s: Seq<Point>) -> bool {
    forall|i: int, j: int| 0 <= i <= j < s.len() ==> s[i].x <= s[j].x
}

/// Every point lies in the coordinate range.
pub open spec fn all_bounded(s: Seq<Point>) -> bool {
    forall|i: int| 0 <= i < s.len() ==> #[trigger] s[i].bounded()
}

/// Highest any band reaches: the lowest terrain with the largest waves on it.
pub const MESH_TOP: i64 = -300_000;

/// Every point's y lies between `MESH_TOP` and the window bottom.
pub open spec fn ys_in_window(s: Seq<Point>) -> bool {
    forall|i: int| 0 <= i < s.len() ==> MESH_TOP <= #[trigger] s[i].y <= WINDOW_HEIGHT
}

/// A mesh the height index can search: non-empty, the surface layer sorted by
/// x, three layers of one length, every point in range.
pub open spec fn mesh_ok(v: &SurfaceVerts) -> bool {
    &&& v.layer_a@.len() > 0
    &&& v.layer_b@.len() == v.layer_a@.len()
    &&& v.layer_c@.len() == v.layer_a@.len()
    &&& sorted_x(v.layer_a@)
    &&& all_bounded(v.layer_a@)
    &&& all_bounded(v.layer_b@)
    &&& all_bounded(v.layer_c@)
    &&& ys_in_window(v.layer_a@)
    &&& ys_in_window(v.layer_b@)
    &&& ys_in_window(v.layer_c@)
}

/// Samples lie left to right, strictly.
pub open spec fn x_increasing(s: Seq<Surface>) -> bool {
    forall|i: int, j: int| 0 <= i < j < s.len() ==> s[i].pos.x < s[j].pos.x
}

/// Every sample is valid and stays in the coordinate range once scrolled by `scroll`.
pub open spec fn chain_fits(s: Seq<Surface>, scroll: int) -> bool {
    &&& in_coord_range(scroll)
    &&& forall|k: int|
        0 <= k < s.len() ==> #[trigger] s[k].valid() && in_coord_range(s[k].pos.x + scroll)
}

/// Ease-in-out quadratic on thousandths: `2t^2` below one half, `1 - (2 - 2t)^2 / 2` above.
pub open spec fn ease_spec(t: int) -> int {
    if t < 500 {
        2 * t * t / 1000
    } else {
        1000 - 2 * (1000 - t) * (1000 - t) / 1000
    }
}

pub fn ease_in_out_quad(t: i64) -> (r: i64)
    requires
        0 <= t <= 1000,
    ensures
        r == ease_spec(t as int),
        0 <= r <= 1000,
{
    if t < 500 {
        proof {
            assert(0 <= 2 * t * t <= 500_000) by (nonlinear_arith)
                requires
                    0 <= t < 500,
            ;
            lemma_div_is_ordered(2 * t * t, 500_000, 1000);
            lemma_div_pos_is_pos(2 * t * t, 1000);
        }
        2 * t * t / 1000
    } else {
        proof {
            assert(0 <= 2 * (1000 - t) * (1000 - t) <= 500_000) by (nonlinear_arith)
                requires
                    500 <= t <= 1000,
            ;
            lemma_div_is_ordered(2 * (1000 - t) * (1000 - t), 500_000, 1000);
            lemma_div_pos_is_pos(2 * (1000 - t) * (1000 - t), 1000);
        }
        1000 - 2 * (1000 - t) * (1000 - t) / 1000
    }
}

/// One band's wave offset for sample `s` under scroll `scroll`: never positive,
/// at most `band_scale` in size.
pub open spec fn wave(s: Surface, scroll: int, phase: int, band_scale: int) -> int {
    let arg = tdiv((s.pos.x + scroll) * (10_000 + 20 * s.freq), 1_000_000) + phase;
    -(((sin_spec(arg) + 1000) * (3000 + s.amplitude) * band_scale) / 8_000_000)
}

pub open spec fn band_a(s: Surface, scroll: int) -> int {
    WINDOW_HEIGHT - s.pos.y + wave(s, scroll, 0, SCALE_A as int)
}

pub open spec fn band_b(s: Surface, scroll: int) -> int {
    band_a(s, scroll) + wave(s, scroll, PHASE_B as int, SCALE_B as int)
}

pub open spec fn band_c(s: Surface, scroll: int) -> int {
    band_b(s, scroll) + wave(s, scroll, PHASE_C as int, SCALE_C as int)
}

fn wave_exec(s: &Surface, scroll: i64, phase: i64, band_scale: i64) -> (r: i64)
    requires
        s.valid(),
        in_coord_range(s.pos.x + scroll),
        0 <= phase <= 3000,
        0 <= band_scale <= 40_000,
    ensures
        r == wave(*s, scroll as int, phase as int, band_scale as int),
        -80_000 <= r <= 0,
{
    let w = s.pos.x + scroll;
    let f = 10_000 + 20 * s.freq;
    proof {
        assert(-COORD_LIMIT * 30_000 <= w * f <= COORD_LIMIT * 30_000) by (nonlinear_arith)
            requires
                in_coord_range(w as int),
                10_000 <= f <= 30_000,
        ;
        if w * f < 0 {
            lemma_div_is_ordered(-(w * f), COORD_LIMIT * 30_000, 1_000_000);
        } else {
            lemma_div_is_ordered(w * f, COORD_LIMIT * 30_000, 1_000_000);
        }
    }
    let arg = w * f / 1_000_000 + phase;
    let sn = sin_milli(arg);
    proof {
        assert(0 <= (sn + 1000) * (3000 + s.amplitude) <= 2000 * 4000) by (nonlinear_arith)
            requires
                0 <= sn + 1000 <= 2000,
                0 <= 3000 + s.amplitude <= 4000,
        ;
    }
    let m = (sn + 1000) * (3000 + s.amplitude);
    proof {
        assert(0 <= m * band_scale <= 2000 * 4000 * 40_000) by (nonlinear_arith)
            requires
                0 <= m <= 2000 * 4000,
                0 <= band_scale <= 40_000,
        ;
    }
    let n = m * band_scale;
    proof {
        lemma_div_is_ordered(n as int, 320_000_000_000int, 8_000_000);
        lemma_div_pos_is_pos(n as int, 8_000_000);
    }
    -(n / 8_000_000)
}

/// `a + (b - a) * num / den`, rounding the step toward zero.
pub open spec fn lerp(a: int, b: int, num: int, den: int) -> int {
    a + tdiv((b - a) * num, den)
}

/// The sample a column of sample `k` interpolates from: its predecessor, or
/// itself for the first sample.
pub open spec fn prev_sample(s: Seq<Surface>, k: int) -> Surface {
    if k == 0 {
        s[0]
    } else {
        s[k - 1]
    }
}

/// Screen x of sub-column `j` of sample `k`.
pub open spec fn column_x(s: Seq<Surface>, scroll: int, k: int, j: int) -> int {
    lerp(prev_sample(s, k).pos.x + scroll, s[k].pos.x + scroll, j, 7)
}

/// Eased weight of sub-column `j`, in thousandths.
pub open spec fn column_weight(j: int) -> int {
    ease_spec(j * 1000 / 7)
}

pub open spec fn column_a(s: Seq<Surface>, scroll: int, k: int, j: int) -> int {
    lerp(band_a(prev_sample(s, k), scroll), band_a(s[k], scroll), column_weight(j), 1000)
}

pub open spec fn column_b(s: Seq<Surface>, scroll: int, k: int, j: int) -> int {
    lerp(band_b(prev_sample(s, k), scroll), band_b(s[k], scroll), column_weight(j), 1000)
}

pub open spec fn column_c(s: Seq<Surface>, scroll: int, k: int, j: int) -> int {
    lerp(band_c(prev_sample(s, k), scroll), band_c(s[k], scroll), column_weight(j), 1000)
}

/// Point `i` of the surface layer: column `i / 2`, top of band A, then the window bottom.
#[verifier::opaque]
pub open spec fn mesh_a(s: Seq<Surface>, scroll: int, i: int) -> Point {
    let k = i / 16;
    let j = (i % 16) / 2;
    let x = column_x(s, scroll, k, j);
    if i % 2 == 0 {
        Point { x: x as i64, y: column_a(s, scroll, k, j) as i64 }
    } else {
        Point { x: x as i64, y: WINDOW_HEIGHT }
    }
}

/// Point `i` of the middle layer: top of band B, then top of band A.
#[verifier::opaque]
pub open spec fn mesh_b(s: Seq<Surface>, scroll: int, i: int) -> Point {
    let k = i / 16;
    let j = (i % 16) / 2;
    let x = column_x(s, scroll, k, j);
    if i % 2 == 0 {
        Point { x: x as i64, y: column_b(s, scroll, k, j) as i64 }
    } else {
        Point { x: x as i64, y: column_a(s, scroll, k, j) as i64 }
    }
}

/// Point `i` of the deep layer: top of band C, then top of band B.
#[verifier::opaque]
pub open spec fn mesh_c(s: Seq<Surface>, scroll: int, i: int) -> Point {
    let k = i / 16;
    let j = (i % 16) / 2;
    let x = column_x(s, scroll, k, j);
    if i % 2 == 0 {
        Point { x: x as i64, y: column_c(s, scroll, k, j) as i64 }
    } else {
        Point { x: x as i64, y: column_b(s, scroll, k, j) as i64 }
    }
}

/// The mesh built from `s` under `scroll`, as `get_surface_verts` returns it.
pub open spec fn is_mesh_of(v: SurfaceVerts, s: Seq<Surface>, scroll: int) -> bool {
    &&& v.layer_a@.len() == 16 * s.len()
    &&& v.layer_b@.len() == 16 * s.len()
    &&& v.layer_c@.len() == 16 * s.len()
    &&& forall|i: int| 0 <= i < 16 * s.len() ==> #[trigger] v.layer_a@[i] == mesh_a(s, scroll, i)
    &&& forall|i: int| 0 <= i < 16 * s.len() ==> #[trigger] v.layer_b@[i] == mesh_b(s, scroll, i)
    &&& forall|i: int| 0 <= i < 16 * s.len() ==> #[trigger] v.layer_c@[i] == mesh_c(s, scroll, i)
}

proof fn lemma_index_split(k: int, j: int, b: int)
    requires
        k >= 0,
        0 <= j < 8,
        0 <= b < 2,
    ensures
        (16 * k + 2 * j + b) / 16 == k,
        ((16 * k + 2 * j + b) % 16) / 2 == j,
        (16 * k + 2 * j + b) % 2 == b,
{
    lemma_fundamental_div_mod_converse(16 * k + 2 * j + b, 16, k, 2 * j + b);
    vstd::arithmetic::div_mod::lemma_fundamental_div_mod_converse_div(
        16 * k + 2 * j + b,
        16,
        k,
        2 * j + b,
    );
    lemma_fundamental_div_mod_converse(2 * j + b, 2, j, b);
    vstd::arithmetic::div_mod::lemma_fundamental_div_mod_converse_div(2 * j + b, 2, j, b);
    lemma_fundamental_div_mod_converse(16 * k + 2 * j + b, 2, 8 * k + j, b);
}

proof fn lemma_mesh_at(s: Seq<Surface>, scroll: int, k: int, j: int)
    requires
        k >= 0,
        0 <= j < 8,
    ensures
        mesh_a(s, scroll, 16 * k + 2 * j) == (Point {
            x: column_x(s, scroll, k, j) as i64,
            y: column_a(s, scroll, k, j) as i64,
        }),
        mesh_a(s, scroll, 16 * k + 2 * j + 1) == (Point {
            x: column_x(s, scroll, k, j) as i64,
            y: WINDOW_HEIGHT,
        }),
        mesh_b(s, scroll, 16 * k + 2 * j) == (Point {
            x: column_x(s, scroll, k, j) as i64,
            y: column_b(s, scroll, k, j) as i64,
        }),
        mesh_b(s, scroll, 16 * k + 2 * j + 1) == (Point {
            x: column_x(s, scroll, k, j) as i64,
            y: column_a(s, scroll, k, j) as i64,
        }),
        mesh_c(s, scroll, 16 * k + 2 * j) == (Point {
            x: column_x(s, scroll, k, j) as i64,
            y: column_c(s, scroll, k, j) as i64,
        }),
        mesh_c(s, scroll, 16 * k + 2 * j + 1) == (Point {
            x: column_x(s, scroll, k, j) as i64,
            y: column_b(s, scroll, k, j) as i64,
        }),
{
    reveal(mesh_a);
    reveal(mesh_b);
    reveal(mesh_c);
    lemma_index_split(k, j, 0);
    lemma_index_split(k, j, 1);
}

fn lerp_exec(a: i64, b: i64, num: i64, den: i64) -> (r: i64)
    requires
        -2 * COORD_LIMIT <= a <= 2 * COORD_LIMIT,
        -2 * COORD_LIMIT <= b <= 2 * COORD_LIMIT,
        0 <= num <= den <= 1000,
        den > 0,
    ensures
        r == lerp(a as int, b as int, num as int, den as int),
        a <= b ==> a <= r <= b,
        b <= a ==> b <= r <= a,
{
    let d = b - a;
    proof {
        assert(-4 * COORD_LIMIT * 1000 <= d * num <= 4 * COORD_LIMIT * 1000) by (nonlinear_arith)
            requires
                -4 * COORD_LIMIT <= d <= 4 * COORD_LIMIT,
                0 <= num <= 1000,
        ;
        assert((d >= 0 ==> 0 <= d * num <= d * den) && (d < 0 ==> 0 <= -(d * num) <= -d * den))
            by (nonlinear_arith)
            requires
                0 <= num <= den,
        ;
        if d >= 0 {
            lemma_div_is_ordered(d * num, d * den, den as int);
            lemma_div_pos_is_pos(d * num, den as int);
            assert((d * den) / (den as int) == d) by (nonlinear_arith)
                requires
                    den > 0,
            ;
        } else {
            lemma_div_is_ordered(-(d * num), -d * den, den as int);
            lemma_div_pos_is_pos(-(d * num), den as int);
            assert((-d * den) / (den as int) == -d) by (nonlinear_arith)
                requires
                    den > 0,
            ;
        }
    }
    a + d * num / den
}

proof fn lemma_lerp_monotone(a: int, b: int, n1: int, n2: int, den: int)
    requires
        a <= b,
        0 <= n1 <= n2,
        den > 0,
    ensures
        lerp(a, b, n1, den) <= lerp(a, b, n2, den),
{
    assert(0 <= (b - a) * n1 <= (b - a) * n2) by (nonlinear_arith)
        requires
            a <= b,
            0 <= n1 <= n2,
    ;
    lemma_div_is_ordered((b - a) * n1, (b - a) * n2, den);
}

/// Builds the three-band mesh of the chain `surfaces` scrolled by `x`: each
/// sample gives eight columns, interpolated from its predecessor (linearly in
/// x, eased in y); each column gives two points per layer.
pub fn get_surface_verts(surfaces: &Vec<Surface>, x: i64) -> (r: SurfaceVerts)
    requires
        surfaces@.len() <= MAX_SAMPLES,
        chain_fits(surfaces@, x as int),
    ensures
        is_mesh_of(r, surfaces@, x as int),
        x_increasing(surfaces@) ==> sorted_x(r.layer_a@),
        all_bounded(r.layer_a@),
        all_bounded(r.layer_b@),
        all_bounded(r.layer_c@),
        ys_in_window(r.layer_a@),
        ys_in_window(r.layer_b@),
        ys_in_window(r.layer_c@),
{
    let ghost s = surfaces@;
    let mut layer_a: Vec<Point> = Vec::new();
    let mut layer_b: Vec<Point> = Vec::new();
    let mut layer_c: Vec<Point> = Vec::new();
    let n = surfaces.len();
    let mut k: usize = 0;
    while k < n
        invariant
            s == surfaces@,
            n == s.len(),
            n <= MAX_SAMPLES,
            chain_fits(s, x as int),
            k <= n,
            layer_a@.len() == 16 * k,
            layer_b@.len() == 16 * k,
            layer_c@.len() == 16 * k,
            forall|i: int| 0 <= i < 16 * k ==> #[trigger] layer_a@[i] == mesh_a(s, x as int, i),
            forall|i: int| 0 <= i < 16 * k ==> #[trigger] layer_b@[i] == mesh_b(s, x as int, i),
            forall|i: int| 0 <= i < 16 * k ==> #[trigger] layer_c@[i] == mesh_c(s, x as int, i),
            x_increasing(s) ==> sorted_x(layer_a@),
            all_bounded(layer_a@),
            all_bounded(layer_b@),
            all_bounded(layer_c@),
            ys_in_window(layer_a@),
            ys_in_window(layer_b@),
            ys_in_window(layer_c@),
            x_increasing(s) && k > 0 ==> forall|i: int|
                0 <= i < 16 * k ==> #[trigger] layer_a@[i].x <= s[k - 1].pos.x + x,
        decreases n - k,
    {
        let cur = &surfaces[k];
        let prev = if k == 0 {
            &surfaces[0]
        } else {
            &surfaces[k - 1]
        };
        assert(s[k as int].valid());
        if k > 0 {
            assert(s[k - 1].valid());
        }
        let cx = cur.pos.x + x;
        let px = prev.pos.x + x;
        let ca = WINDOW_HEIGHT - cur.pos.y + wave_exec(cur, x, 0, SCALE_A);
        let cb = ca + wave_exec(cur, x, PHASE_B, SCALE_B);
        let cc = cb + wave_exec(cur, x, PHASE_C, SCALE_C);
        let pa = WINDOW_HEIGHT - prev.pos.y + wave_exec(prev, x, 0, SCALE_A);
        let pb = pa + wave_exec(prev, x, PHASE_B, SCALE_B);
        let pc = pb + wave_exec(prev, x, PHASE_C, SCALE_C);
        proof {
            if x_increasing(s) && k > 0 {
                assert(s[k - 1].pos.x < s[k as int].pos.x);
            }
        }
        let mut j: usize = 0;
        while j < COLUMNS
            invariant
                s == surfaces@,
                n == s.len(),
                n <= MAX_SAMPLES,
                chain_fits(s, x as int),
                k < n,
                j <= 8,
                cx == s[k as int].pos.x + x,
                in_coord_range(cx as int),
                in_coord_range(px as int),
                px == prev_sample(s, k as int).pos.x + x,
                ca == band_a(s[k as int], x as int),
                cb == band_b(s[k as int], x as int),
                cc == band_c(s[k as int], x as int),
                pa == band_a(prev_sample(s, k as int), x as int),
                pb == band_b(prev_sample(s, k as int), x as int),
                pc == band_c(prev_sample(s, k as int), x as int),
                MESH_TOP <= ca <= WINDOW_HEIGHT,
                MESH_TOP <= cb <= WINDOW_HEIGHT,
                MESH_TOP <= cc <= WINDOW_HEIGHT,
                MESH_TOP <= pa <= WINDOW_HEIGHT,
                MESH_TOP <= pb <= WINDOW_HEIGHT,
                MESH_TOP <= pc <= WINDOW_HEIGHT,
                layer_a@.len() == 16 * k + 2 * j,
                layer_b@.len() == 16 * k + 2 * j,
                layer_c@.len() == 16 * k + 2 * j,
                forall|i: int|
                    0 <= i < 16 * k + 2 * j ==> #[trigger] layer_a@[i] == mesh_a(s, x as int, i),
                forall|i: int|
                    0 <= i < 16 * k + 2 * j ==> #[trigger] layer_b@[i] == mesh_b(s, x as int, i),
                forall|i: int|
                    0 <= i < 16 * k + 2 * j ==> #[trigger] layer_c@[i] == mesh_c(s, x as int, i),
                x_increasing(s) ==> sorted_x(layer_a@),
                all_bounded(layer_a@),
                all_bounded(layer_b@),
                all_bounded(layer_c@),
                ys_in_window(layer_a@),
                ys_in_window(layer_b@),
                ys_in_window(layer_c@),
                x_increasing(s) ==> px <= cx,
                x_increasing(s) && (k > 0 || j > 0) ==> forall|i: int|
                    0 <= i < 16 * k + 2 * j ==> #[trigger] layer_a@[i].x <= column_x(
                        s,
                        x as int,
                        k as int,
                        if j == 0 {
                            0
                        } else {
                            j - 1
                        },
                    ),
                x_increasing(s) && k > 0 && j == 0 ==> forall|i: int|
                    0 <= i < 16 * k ==> #[trigger] layer_a@[i].x <= px,
            decreases 8 - j,
        {
            let ji = j as i64;
            let w = ease_in_out_quad(ji * 1000 / 7);
            let x1 = lerp_exec(px, cx, ji, 7);
            let ya = lerp_exec(pa, ca, w, 1000);
            let yb = lerp_exec(pb, cb, w, 1000);
            let yc = lerp_exec(pc, cc, w, 1000);
            let ghost old_a = layer_a@;
            proof {
                lemma_mesh_at(s, x as int, k as int, j as int);
                assert(ji * 1000 / 7 == (j as int) * 1000 / 7);
                if x_increasing(s) {
                    lemma_lerp_monotone(px as int, cx as int, 0, j as int, 7);
                    if j > 0 {
                        lemma_lerp_monotone(px as int, cx as int, (j - 1) as int, j as int, 7);
                    }
                    assert(lerp(px as int, cx as int, 0, 7) == px);
                }
            }
            layer_a.push(Point { x: x1, y: ya });
            layer_a.push(Point { x: x1, y: WINDOW_HEIGHT });
            layer_b.push(Point { x: x1, y: yb });
            layer_b.push(Point { x: x1, y: ya });
            layer_c.push(Point { x: x1, y: yc });
            layer_c.push(Point { x: x1, y: yb });
            proof {
                if x_increasing(s) {
                    assert forall|i: int, i2: int|
                        0 <= i <= i2 < layer_a@.len() implies layer_a@[i].x <= layer_a@[i2].x by {
                        if i2 >= old_a.len() {
                            if i < old_a.len() {
                                assert(old_a[i] == layer_a@[i]);
                            }
                        } else {
                            assert(old_a[i] == layer_a@[i]);
                            assert(old_a[i2] == layer_a@[i2]);
                        }
                    }
                }
            }
            j = j + 1;
        }
        k = k + 1;
    }
    SurfaceVerts { layer_a, layer_b, layer_c }
}

/// `r` is the index of the first point of `a` at or past `x`, or the last
/// index when every point lies left of `x`.
pub open spec fn is_surface_index(a: Seq<Point>, x: int, r: int) -> bool {
    &&& 0 <= r < a.len()
    &&& a.last().x >= x ==> a[r].x >= x && (r == 0 || a[r - 1].x < x)
    &&& a.last().x < x ==> r == a.len() - 1
}

/// Index of the first surface point at or past `x`: the top of the first column
/// there. Past the end of the mesh, the last index.
pub fn get_surface_verts_index(surface_verts: &SurfaceVerts, x: i64) -> (r: usize)
    requires
        surface_verts.layer_a@.len() > 0,
        sorted_x(surface_verts.layer_a@),
    ensures
        is_surface_index(surface_verts.layer_a@, x as int, r as int),
{
    let a = &surface_verts.layer_a;
    let mut lo: usize = 0;
    let mut hi: usize = a.len();
    while lo < hi
        invariant
            a@ == surface_verts.layer_a@,
            sorted_x(a@),
            0 <= lo <= hi <= a@.len(),
            forall|i: int| 0 <= i < lo ==> #[trigger] a@[i].x < x,
            forall|i: int| hi <= i < a@.len() ==> #[trigger] a@[i].x >= x,
        decreases hi - lo,
    {
        let mid = lo + (hi - lo) / 2;
        if a[mid].x < x {
            lo = mid + 1;
        } else {
            hi = mid;
        }
    }
    if lo >= a.len() {
        return a.len() - 1;
    }
    lo
}

} // verus!
