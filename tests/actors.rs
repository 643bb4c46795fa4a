use deep_sea_scramble::bubbles::{Bubble, Bubbles, BubblesManager, SIZE_FLOOR};
use deep_sea_scramble::bullet::{Bullet, BulletManager, BULLET_VX, BULLET_VY, DECAY_START};
use deep_sea_scramble::entity::{Entity, EntityManager};
use deep_sea_scramble::fish::Fish;
use deep_sea_scramble::fish_swarm::{
    parent_slot, target_from_offsets, FishSwarm, TARGET_MAX_X, TARGET_MAX_Y, TARGET_MIN_X,
    TARGET_MIN_Y,
};
use deep_sea_scramble::geom::{Point, WINDOW_HEIGHT, WINDOW_WIDTH};
use deep_sea_scramble::mesh::get_surface_verts_index;
use deep_sea_scramble::mine::{Mine, MineManager, RATE_START};
use deep_sea_scramble::random::RandomSource;
use deep_sea_scramble::ship::{Ship, MUZZLE_BUBBLES, SHIP_START_Y, SHIP_X};
use deep_sea_scramble::water::Water;

const FRAME: i64 = 16_667;

fn covered_water(seed: u64) -> (Water, RandomSource) {
    let mut rng = RandomSource::new(seed);
    let mut water = Water::new();
    water.update(0, &mut rng);
    (water, rng)
}

#[test]
fn manager_hands_out_increasing_ids() {
    let mut m: BulletManager = EntityManager::new();
    assert_eq!(m.insert(Bullet::new(Point { x: 1, y: 1 })), 1);
    assert_eq!(m.insert(Bullet::new(Point { x: 2, y: 2 })), 2);
    assert_eq!(m.insert(Bullet::new(Point { x: 3, y: 3 })), 3);
    assert_eq!(m.len(), 3);
    assert_eq!(m.head().map(|b| b.pos), Some(Point { x: 1, y: 1 }));
}

#[test]
fn manager_treats_unknown_ids_as_finished() {
    let mut m: BulletManager = EntityManager::new();
    assert!(m.is_finished(0));
    assert!(m.is_finished(7));
    let id = m.insert(Bullet::new(Point { x: 100_000, y: 100_000 }));
    assert!(!m.is_finished(id));
    m.set_pos(99, Point { x: 5, y: 5 });
    assert_eq!(m.slots[0].entity.pos, Point { x: 100_000, y: 100_000 });
    m.set_pos(id, Point { x: 5, y: 6 });
    assert_eq!(m.slots[0].entity.pos, Point { x: 5, y: 6 });
}

#[test]
fn manager_retires_finished_in_order() {
    let mut m: BulletManager = EntityManager::new();
    m.insert(Bullet::new(Point { x: 100_000, y: 100_000 }));
    m.insert(Bullet::new(Point { x: -5, y: 100_000 }));
    m.insert(Bullet::new(Point { x: 200_000, y: 100_000 }));
    let empty = m.update(0);
    assert!(!empty);
    let ids: Vec<usize> = m.slots.iter().map(|s| s.id).collect();
    assert_eq!(ids, vec![1, 3]);
    assert!(m.is_finished(2));
}

#[test]
fn bullet_starts_with_its_launch_speed() {
    let b = Bullet::new(Point { x: 100_000, y: 200_000 });
    assert_eq!(b.vel, Point { x: BULLET_VX, y: BULLET_VY });
    assert_eq!(b.vel_decay, DECAY_START);
    assert!(!b.is_finished());
}

#[test]
fn bullet_one_frame_of_motion() {
    let mut b = Bullet::new(Point { x: 100_000, y: 200_000 });
    b.update(FRAME);
    assert_eq!(b.pos, Point { x: 105_000, y: 200_166 });
    assert_eq!(b.vel_decay, 1_028_970);
    assert_eq!(b.vel.y, 10_289);
}

#[test]
fn bullet_fired_at_100_200_retires_within_the_window() {
    let mut b = Bullet::new(Point { x: 100_000, y: 200_000 });
    let mut frames = 0;
    while !b.is_finished() {
        b.update(FRAME);
        frames += 1;
        assert!(frames <= 130);
        if !b.is_finished() {
            assert!(b.pos.x >= 0 && b.pos.x <= WINDOW_WIDTH);
            assert!(b.pos.y >= 0 && b.pos.y < WINDOW_HEIGHT);
        }
    }
    assert_eq!(frames, 109);
}

#[test]
fn bubbles_never_exceed_their_quota_and_finish() {
    let (water, mut rng) = covered_water(21);
    let mut bubbles = Bubbles::new(5);
    bubbles.set_pos(Point { x: 100_000, y: 470_000 });
    let mut frames = 0;
    while !bubbles.is_finished() {
        bubbles.update(&water.surface_verts, FRAME, &mut rng);
        assert!(bubbles.els.len() <= 5);
        frames += 1;
        assert!(frames < 2000);
    }
    assert_eq!(bubbles.els.len(), 5);
    assert!(bubbles.els.iter().all(|b| b.dt0 == 0 && b.size < SIZE_FLOOR));
}

#[test]
fn bubbles_finish_in_the_frame_the_last_one_fades() {
    let (water, mut rng) = covered_water(22);
    let mut bubbles = Bubbles::new(5);
    while bubbles.els.len() < 5 || bubbles.els.iter().any(|b| b.dt0 != 0) {
        bubbles.update(&water.surface_verts, FRAME, &mut rng);
    }
    let largest = bubbles.els.iter().map(|b| b.size).max().unwrap();
    let frames = (largest - SIZE_FLOOR) / 100 + 1;
    for _ in 0..frames {
        bubbles.update(&water.surface_verts, FRAME, &mut rng);
    }
    assert!(bubbles.is_finished());
}

#[test]
fn bubbles_with_zero_quota_finish_at_once() {
    let (water, mut rng) = covered_water(23);
    let mut bubbles = Bubbles::new(0);
    bubbles.update(&water.surface_verts, FRAME, &mut rng);
    assert!(bubbles.is_finished());
}

#[test]
fn bubbles_manager_tracks_emitters_by_id() {
    let (water, mut rng) = covered_water(24);
    let mut m: BubblesManager = EntityManager::new();
    let id = m.add_bubbles(3);
    assert_eq!(id, 1);
    assert!(!m.is_finished(id));
    for _ in 0..1000 {
        m.update(&water.surface_verts, FRAME, &mut rng);
    }
    assert!(m.is_finished(id));
    assert_eq!(m.len(), 0);
}

#[test]
fn formation_parents_form_a_binary_tree() {
    assert_eq!(parent_slot(1), 0);
    assert_eq!(parent_slot(2), 0);
    assert_eq!(parent_slot(3), 1);
    assert_eq!(parent_slot(4), 1);
    assert_eq!(parent_slot(5), 2);
    assert_eq!(parent_slot(6), 2);
}

#[test]
fn targets_are_held_in_the_play_bounds() {
    let p = target_from_offsets(Point { x: 0, y: 0 }, -500_000, -500_000);
    assert_eq!(p, Point { x: TARGET_MIN_X, y: TARGET_MIN_Y });
    let q = target_from_offsets(Point { x: 600_000, y: 470_000 }, 500_000, 500_000);
    assert_eq!(q, Point { x: TARGET_MAX_X, y: TARGET_MAX_Y });
    let r = target_from_offsets(Point { x: 100_000, y: 350_000 }, 5000, -7000);
    assert_eq!(r, Point { x: 105_000, y: 343_000 });
}

#[test]
fn swarm_of_seven_retargets_near_formation_parents() {
    let (water, mut rng) = covered_water(31);
    let mut swarm = FishSwarm::new(7, 0, 2, &mut rng);
    assert_eq!(swarm.fish_manager.len(), 7);
    swarm.update(FRAME, &water.surface_verts, &mut rng);
    let fish: Vec<&Fish> = swarm.fish_manager.slots.iter().map(|s| &s.entity).collect();
    assert_eq!(fish.len(), 7);
    let lead = fish[0];
    assert!(lead.target_pos.x >= lead.pos.x - 40_000 && lead.target_pos.x < lead.pos.x - 1_000
        || lead.target_pos.x == TARGET_MAX_X);
    for i in 1..7 {
        let anchor = fish[parent_slot(i)].pos;
        let t = fish[i].target_pos;
        assert!(!fish[i].target_reached);
        let in_x = (t.x - anchor.x).abs() <= 10_000 || t.x == TARGET_MIN_X || t.x == TARGET_MAX_X;
        let in_y = (t.y - anchor.y).abs() <= 10_000 || t.y == TARGET_MIN_Y || t.y == TARGET_MAX_Y;
        assert!(in_x && in_y);
    }
    assert!(fish.iter().all(|f| f.pos.x >= WINDOW_WIDTH));
}

#[test]
fn swarm_lead_sector_test() {
    let (_, mut rng) = covered_water(32);
    let mut swarm = FishSwarm::new(2, 0, 0, &mut rng);
    assert!(!swarm.in_last_sector());
    swarm.fish_manager.slots[0].entity.pos = Point { x: 480_000, y: 300_000 };
    assert!(swarm.in_last_sector());
    swarm.fish_manager.slots[0].entity.pos = Point { x: 479_999, y: 300_000 };
    assert!(!swarm.in_last_sector());
    let empty = FishSwarm::new(0, 0, 0, &mut rng);
    assert!(!empty.in_last_sector());
}

#[test]
fn fish_turns_toward_its_target() {
    let (water, _) = covered_water(33);
    let mut fish = Fish::new(Point { x: 300_000, y: 460_000 }, 1000, 0);
    fish.set_target_pos(Point { x: 300_000, y: 470_000 });
    assert!(!fish.has_reached_target());
    let before = fish.direction;
    fish.update(FRAME, &water.surface_verts, 4);
    assert_eq!(fish.fish_index, 4);
    assert!(fish.direction > before);
    assert_eq!(fish.wobble, FRAME);
}

#[test]
fn fish_leaving_left_edge_finishes() {
    let (mut water, mut rng) = covered_water(34);
    water.update(-50_000, &mut rng);
    water.update(-100_000, &mut rng);
    let mut fish = Fish::new(Point { x: -89_999, y: 460_000 }, 1000, 0);
    fish.set_target_pos(Point { x: -200_000, y: 460_000 });
    for _ in 0..200 {
        fish.update(FRAME, &water.surface_verts, 0);
    }
    assert!(fish.is_finished());
}

fn test_mine(pos_x: i64, pos_y: i64) -> Mine {
    Mine { pos: Point { x: pos_x, y: pos_y }, launch_x: 400_000, dy: RATE_START, bubble_id: 0, arena_x: 0, finished: false }
}

#[test]
fn mine_rests_on_terrain_short_of_launch_x() {
    let (water, _) = covered_water(41);
    let ship = Ship::new();
    let mut bubbles: BubblesManager = EntityManager::new();
    let mut mine = test_mine(300_000, 0);
    for arena_x in [0i64, -1_000, -50_000, -100_000] {
        mine.update(FRAME, arena_x, &mut bubbles, &ship, &water.surface_verts);
        let x = arena_x + 300_000;
        assert!(x < 400_000);
        let i = get_surface_verts_index(&water.surface_verts, x);
        assert_eq!(mine.pos.y, water.surface_verts.layer_a[i].y);
        assert_eq!(mine.dy, RATE_START);
    }
    assert_eq!(bubbles.len(), 0);
}

#[test]
fn mine_rises_once_past_launch_x() {
    let (water, _) = covered_water(42);
    let ship = Ship::new();
    let mut bubbles: BubblesManager = EntityManager::new();
    let mut mine = test_mine(450_000, 470_000);
    mine.update(FRAME, 0, &mut bubbles, &ship, &water.surface_verts);
    assert_eq!(mine.dy, 2985);
    assert_eq!(mine.pos.y, 470_000 - 1333 - 4975);
    let mut y = mine.pos.y;
    for _ in 0..10 {
        mine.update(FRAME, -1_000, &mut bubbles, &ship, &water.surface_verts);
        assert!(mine.pos.y < y);
        y = mine.pos.y;
    }
    assert!(!bubbles.is_finished(mine.bubble_id));
    assert_eq!(bubbles.slots[0].entity.num, 5);
    assert_eq!(bubbles.len(), 1);
    assert_eq!(bubbles.slots[0].entity.pos, Point { x: 449_000, y: mine.pos.y });
}

#[test]
fn mine_launch_threshold_depends_on_depth() {
    let ship = Ship::new();
    let m = Mine::new(Point { x: 700_000, y: 200_000 }, &ship);
    assert_eq!(m.pos, Point { x: 675_000, y: 200_000 });
    assert_eq!(m.launch_x, SHIP_X + SHIP_START_Y - (WINDOW_HEIGHT - 200_000));
    let deeper = Mine::new(Point { x: 700_000, y: 150_000 }, &ship);
    assert!(deeper.launch_x < m.launch_x);
}

#[test]
fn mine_retired_off_the_left_edge() {
    let (water, _) = covered_water(43);
    let ship = Ship::new();
    let mut bubbles: BubblesManager = EntityManager::new();
    let mut mines: MineManager = EntityManager::new();
    mines.insert(test_mine(0, 300_000));
    let empty = mines.update(FRAME, -20_001, &mut bubbles, &ship, &water.surface_verts);
    assert!(empty);
}

#[test]
fn ship_is_pushed_back_below_the_surface() {
    let (water, _) = covered_water(51);
    let mut bubbles: BubblesManager = EntityManager::new();
    let mut ship = Ship::new();
    ship.pos.y = 0;
    ship.update(&mut bubbles, &water.surface_verts);
    assert_eq!(ship.pos.y, 2_000);
    ship.pos.y = WINDOW_HEIGHT;
    ship.update(&mut bubbles, &water.surface_verts);
    assert_eq!(ship.pos.y, WINDOW_HEIGHT - 2_000);
    let i = get_surface_verts_index(&water.surface_verts, SHIP_X);
    assert_eq!(ship.y_ofs, water.surface_verts.layer_c[i].y - water.surface_verts.layer_b[i].y);
}

#[test]
fn ship_fires_one_bullet_at_a_time() {
    let mut bubbles: BubblesManager = EntityManager::new();
    let mut bullets: BulletManager = EntityManager::new();
    let mut ship = Ship::new();
    ship.start_bullet(&mut bubbles, &mut bullets);
    assert_eq!(bullets.len(), 1);
    assert_eq!(bullets.slots[0].entity.pos, Point { x: SHIP_X + 15_000, y: SHIP_START_Y + 10_000 });
    assert_eq!(bubbles.len(), 1);
    assert_eq!(bubbles.slots[0].entity.num, MUZZLE_BUBBLES);
    ship.start_bullet(&mut bubbles, &mut bullets);
    assert_eq!(bullets.len(), 1);
    bullets.slots[0].entity.finished = true;
    ship.start_bullet(&mut bubbles, &mut bullets);
    assert_eq!(bullets.len(), 2);
    assert_eq!(ship.bullet_id, 2);
}

#[test]
fn ship_nudge_moves_vertically() {
    let mut ship = Ship::new();
    ship.nudge(-1000);
    assert_eq!(ship.pos, Point { x: SHIP_X, y: SHIP_START_Y - 1000 });
}

#[test]
fn zero_length_frames_leave_bullets_and_fish_in_place() {
    let (water, _) = covered_water(61);
    let mut b = Bullet::new(Point { x: 100_000, y: 200_000 });
    b.update(0);
    assert_eq!(b.pos, Point { x: 100_000, y: 200_000 });
    assert!(!b.is_finished());
    let mut fish = Fish::new(Point { x: 300_000, y: 460_000 }, 1000, 0);
    fish.set_target_pos(Point { x: 100_000, y: 470_000 });
    fish.update(0, &water.surface_verts, 0);
    assert_eq!(fish.pos.x, 300_000);
    assert!(!fish.is_finished());
}

#[test]
fn zero_length_frames_never_finish_an_emitter() {
    let (water, mut rng) = covered_water(71);
    let fading = Bubble { pos: Point { x: 0, y: 0 }, size: 1050, ax: 0, ay: 0, vx: 0, vy: 0, dt0: 0, dt: 0 };
    let mut bubbles = Bubbles { pos: Point { x: 0, y: 0 }, num: 1, els: vec![fading], dt: 0, next_dt: 0, finished: false };
    for _ in 0..5 {
        bubbles.update(&water.surface_verts, 0, &mut rng);
        assert!(!bubbles.is_finished());
        assert_eq!(bubbles.els[0].size, 1050);
    }
    bubbles.update(&water.surface_verts, FRAME, &mut rng);
    assert_eq!(bubbles.els[0].size, 950);
    assert!(bubbles.is_finished());
}

#[test]
fn zero_length_frames_never_finish_a_swarm() {
    let (water, mut rng) = covered_water(72);
    let mut swarm = FishSwarm::new(5, 1, 0, &mut rng);
    for _ in 0..10 {
        swarm.update(FRAME, &water.surface_verts, &mut rng);
    }
    let xs: Vec<i64> = swarm.fish_manager.slots.iter().map(|s| s.entity.pos.x).collect();
    for _ in 0..5 {
        assert!(!swarm.update(0, &water.surface_verts, &mut rng));
        assert!(!swarm.is_finished());
    }
    let after: Vec<i64> = swarm.fish_manager.slots.iter().map(|s| s.entity.pos.x).collect();
    assert_eq!(xs, after);
}

#[test]
fn emitter_spawn_timer_runs_between_spawns() {
    let (water, mut rng) = covered_water(73);
    let mut bubbles = Bubbles::new(3);
    bubbles.update(&water.surface_verts, FRAME, &mut rng);
    assert_eq!(bubbles.els.len(), 1);
    assert!(bubbles.next_dt >= bubbles.dt + 100_000 && bubbles.next_dt < bubbles.dt + 200_000);
    let next = bubbles.next_dt;
    bubbles.update(&water.surface_verts, FRAME, &mut rng);
    assert_eq!(bubbles.els.len(), 1);
    assert_eq!(bubbles.next_dt, next);
}

#[test]
fn ship_trail_follows_the_ship() {
    let (water, _) = covered_water(74);
    let mut bubbles: BubblesManager = EntityManager::new();
    let mut bullets: BulletManager = EntityManager::new();
    let mut ship = Ship::new();
    let other = bubbles.add_bubbles(2);
    ship.start_bullet(&mut bubbles, &mut bullets);
    assert_eq!(ship.bubbles_id, other + 1);
    ship.update(&mut bubbles, &water.surface_verts);
    assert_eq!(bubbles.slots[1].entity.pos, Point { x: SHIP_X + 10_000, y: ship.pos.y });
    assert_eq!(bubbles.slots[0].entity.pos, Point { x: 0, y: 0 });
}
