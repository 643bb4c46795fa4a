use deep_sea_scramble::geom::{clamp, wrap_angle, Point, SURFACE_WIDTH, WINDOW_HEIGHT, WINDOW_WIDTH};
use deep_sea_scramble::mesh::{ease_in_out_quad, get_surface_verts, get_surface_verts_index, Surface};
use deep_sea_scramble::random::RandomSource;
use deep_sea_scramble::trig::{atan2_milli, cos_milli, sin_milli};
use deep_sea_scramble::water::{Water, MAX_HEIGHT, MIN_HEIGHT, STEP_HEIGHT};

fn sample(x: i64, y: i64) -> Surface {
    Surface { pos: Point { x, y }, step: 0, freq: 0, amplitude: 0 }
}

fn two_sample_chain() -> Vec<Surface> {
    vec![sample(0, 200_000), sample(50_000, 250_000)]
}

#[test]
fn sine_and_cosine_hit_their_peaks() {
    assert_eq!(sin_milli(0), 0);
    assert_eq!(sin_milli(1571), 1000);
    assert_eq!(sin_milli(3142), 0);
    assert_eq!(sin_milli(-1571), -1000);
    assert_eq!(cos_milli(0), 1000);
    assert_eq!(sin_milli(785), 705);
}

#[test]
fn atan2_covers_all_quadrants() {
    assert_eq!(atan2_milli(0, 1), 0);
    assert_eq!(atan2_milli(1, 0), 1571);
    assert_eq!(atan2_milli(0, -1), 3142);
    assert_eq!(atan2_milli(-1, 0), -1571);
    assert_eq!(atan2_milli(1, 1), 785);
    assert_eq!(atan2_milli(-5, -5), -2357);
    assert_eq!(atan2_milli(0, 0), 0);
}

#[test]
fn wrap_angle_gives_shortest_turn() {
    assert_eq!(wrap_angle(0), 0);
    assert_eq!(wrap_angle(3142), -3142);
    assert_eq!(wrap_angle(-3142), -3142);
    assert_eq!(wrap_angle(7000), 716);
    assert_eq!(wrap_angle(-4000), 2284);
}

#[test]
fn clamp_limits_both_ways() {
    assert_eq!(clamp(5, 0, 3), 3);
    assert_eq!(clamp(-5, 0, 3), 0);
    assert_eq!(clamp(2, 0, 3), 2);
}

#[test]
fn ease_in_out_quad_on_sub_columns() {
    let got: Vec<i64> = (0..8).map(|j| ease_in_out_quad(j * 1000 / 7)).collect();
    assert_eq!(got, vec![0, 40, 162, 366, 632, 837, 960, 1000]);
    assert_eq!(ease_in_out_quad(250), 125);
    assert_eq!(ease_in_out_quad(500), 500);
    assert_eq!(ease_in_out_quad(750), 875);
}

#[test]
fn mesh_has_eight_columns_per_sample() {
    let verts = get_surface_verts(&two_sample_chain(), 0);
    assert_eq!(verts.layer_a.len(), 32);
    assert_eq!(verts.layer_b.len(), 32);
    assert_eq!(verts.layer_c.len(), 32);
    assert_eq!(verts.layer_a[0], Point { x: 0, y: 265_000 });
    assert_eq!(verts.layer_a[1], Point { x: 0, y: WINDOW_HEIGHT });
    assert_eq!(verts.layer_a[18], Point { x: 7142, y: 262_713 });
    assert_eq!(verts.layer_a[30], Point { x: 50_000, y: 207_815 });
    assert_eq!(verts.layer_b[16], Point { x: 0, y: 243_063 });
    assert_eq!(verts.layer_b[17], Point { x: 0, y: 265_000 });
    assert_eq!(verts.layer_c[16], Point { x: 0, y: 231_161 });
    assert_eq!(verts.layer_c[17], Point { x: 0, y: 243_063 });
    for i in 1..verts.layer_a.len() {
        assert!(verts.layer_a[i - 1].x <= verts.layer_a[i].x);
    }
}

#[test]
fn empty_chain_gives_empty_mesh() {
    let verts = get_surface_verts(&Vec::new(), 0);
    assert!(verts.layer_a.is_empty());
}

#[test]
fn height_index_finds_first_point_at_or_past_x() {
    let verts = get_surface_verts(&two_sample_chain(), 0);
    assert_eq!(get_surface_verts_index(&verts, -5), 0);
    assert_eq!(get_surface_verts_index(&verts, 0), 0);
    assert_eq!(get_surface_verts_index(&verts, 1), 18);
    assert_eq!(get_surface_verts_index(&verts, 7142), 18);
    assert_eq!(get_surface_verts_index(&verts, 7143), 20);
    assert_eq!(get_surface_verts_index(&verts, 25_000), 24);
    assert_eq!(get_surface_verts_index(&verts, 50_000), 30);
}

#[test]
fn height_index_clamps_past_the_end() {
    let verts = get_surface_verts(&two_sample_chain(), 0);
    assert_eq!(get_surface_verts_index(&verts, 50_001), 31);
    assert_eq!(get_surface_verts_index(&verts, 1_000_000), 31);
}

#[test]
fn height_index_is_first_of_a_run_for_every_x() {
    let verts = get_surface_verts(&two_sample_chain(), 0);
    let last = verts.layer_a[verts.layer_a.len() - 1].x;
    for x in -10..=last {
        let i = get_surface_verts_index(&verts, x);
        assert!(verts.layer_a[i].x >= x);
        assert!(i == 0 || verts.layer_a[i - 1].x < x);
    }
}

#[test]
fn water_covers_the_window_after_an_update() {
    let mut rng = RandomSource::new(3);
    let mut water = Water::new();
    let events = water.update(0, &mut rng);
    let n = water.surfaces.len();
    assert!(water.surfaces[n - 1].pos.x >= WINDOW_WIDTH);
    assert!(water.surfaces[0].pos.x <= 0);
    assert_eq!(events.len(), n - 1);
    for k in 1..n {
        let (a, b) = (&water.surfaces[k - 1], &water.surfaces[k]);
        assert_eq!(b.pos.x, a.pos.x + SURFACE_WIDTH);
        assert_eq!(b.pos.y, clamp(a.pos.y + b.step * STEP_HEIGHT, MIN_HEIGHT, MAX_HEIGHT));
        assert_eq!(events[k - 1].trigger, b.step == 0);
        assert_eq!(events[k - 1].pos, b.pos);
    }
    assert_eq!(water.surface_verts.layer_a.len(), 16 * n);
}

#[test]
fn water_keeps_covering_while_it_scrolls() {
    let mut rng = RandomSource::new(11);
    let mut water = Water::new();
    let mut arena_x: i64 = 0;
    for _ in 0..2000 {
        arena_x -= 1667;
        let before: Vec<Surface> = water.surfaces.clone();
        water.update(arena_x, &mut rng);
        let n = water.surfaces.len();
        assert!(arena_x + water.surfaces[n - 1].pos.x >= WINDOW_WIDTH);
        assert!(arena_x + water.surfaces[0].pos.x <= 0);
        for s in &water.surfaces {
            assert!(arena_x + s.pos.x >= -SURFACE_WIDTH);
        }
        for s in &before {
            if arena_x + s.pos.x >= -SURFACE_WIDTH {
                assert!(water.surfaces.contains(s));
            }
        }
    }
}

#[test]
fn water_update_without_scroll_appends_nothing() {
    let mut rng = RandomSource::new(5);
    let mut water = Water::new();
    water.update(-20_000, &mut rng);
    let before = water.surfaces.clone();
    for _ in 0..10 {
        let events = water.update(-20_000, &mut rng);
        assert!(events.is_empty());
        assert_eq!(water.surfaces, before);
    }
}

#[test]
fn random_source_is_reproducible_and_in_range() {
    let mut a = RandomSource::new(99);
    let mut b = RandomSource::new(99);
    let xs: Vec<i64> = (0..50).map(|_| a.range(-3, 7)).collect();
    let ys: Vec<i64> = (0..50).map(|_| b.range(-3, 7)).collect();
    assert_eq!(xs, ys);
    assert!(xs.iter().all(|&v| (-3..7).contains(&v)));
    assert!(xs.iter().any(|&v| v != -3));
}

#[test]
fn water_takes_large_scroll_steps() {
    let mut rng = RandomSource::new(13);
    let mut water = Water::new();
    water.update(0, &mut rng);
    let before = water.surfaces.clone();
    let old_last = before[before.len() - 1].pos.x;
    let arena_x: i64 = -300_000;
    let events = water.update(arena_x, &mut rng);
    let n = water.surfaces.len();
    assert!(arena_x + water.surfaces[n - 1].pos.x >= WINDOW_WIDTH);
    assert!(arena_x + water.surfaces[0].pos.x <= 0);
    assert!(arena_x + water.surfaces[0].pos.x >= -SURFACE_WIDTH);
    for (i, e) in events.iter().enumerate() {
        assert_eq!(e.pos.x, old_last + (i as i64 + 1) * SURFACE_WIDTH);
    }
    assert_eq!(water.surfaces[n - 1].pos.x, old_last + events.len() as i64 * SURFACE_WIDTH);
    for k in 1..n {
        assert_eq!(water.surfaces[k].pos.x, water.surfaces[k - 1].pos.x + SURFACE_WIDTH);
    }
    for s in &before {
        assert_eq!(water.surfaces.contains(s), arena_x + s.pos.x >= -SURFACE_WIDTH);
    }
}
