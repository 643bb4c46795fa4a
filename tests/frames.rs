use deep_sea_scramble::game::Game;
use deep_sea_scramble::geom::Point;
use deep_sea_scramble::shapes::{bullet_vertices, fish_vertices, get_mine_vertices, get_ship_vertices};

const FRAME: i64 = 16_667;

#[test]
fn frames_scroll_the_world_and_spawn_actors() {
    let mut game = Game::new(8);
    let first = game.advance_frame(FRAME, 1667);
    assert!(!first.is_empty());
    assert_eq!(game.water.arena_x, -1667);
    assert_eq!(game.fish_swarm_manager.len(), 1);
    let mines = first.iter().filter(|e| e.trigger).count();
    assert_eq!(game.mine_manager.len(), mines);
    for _ in 0..600 {
        game.advance_frame(FRAME, 1667);
    }
    assert_eq!(game.water.arena_x, -1667 * 601);
}

#[test]
fn idle_frames_spawn_nothing() {
    let mut game = Game::new(9);
    for _ in 0..30 {
        game.advance_frame(FRAME, 1667);
    }
    let chain = game.water.surfaces.clone();
    let mines: Vec<bool> = game.mine_manager.slots.iter().map(|s| s.entity.finished).collect();
    let bullets: Vec<bool> = game.bullet_manager.slots.iter().map(|s| s.entity.finished).collect();
    for _ in 0..5 {
        let events = game.advance_frame(0, 0);
        assert!(events.is_empty());
        assert_eq!(game.water.surfaces, chain);
    }
    let mines_after: Vec<bool> = game.mine_manager.slots.iter().map(|s| s.entity.finished).collect();
    let bullets_after: Vec<bool> = game.bullet_manager.slots.iter().map(|s| s.entity.finished).collect();
    assert_eq!(mines, mines_after);
    assert_eq!(bullets, bullets_after);
}

#[test]
fn firing_through_the_game() {
    let mut game = Game::new(10);
    game.advance_frame(FRAME, 1667);
    game.fire();
    assert_eq!(game.bullet_manager.len(), 1);
    game.fire();
    assert_eq!(game.bullet_manager.len(), 1);
    game.nudge_ship(-1000);
    assert_eq!(game.ship.pos.y, 379_000);
}

#[test]
fn outlines_of_bullet_ship_and_mine() {
    assert_eq!(
        bullet_vertices(10_000, 20_000),
        vec![
            Point { x: 10_000, y: 15_000 },
            Point { x: 5_000, y: 20_000 },
            Point { x: 15_000, y: 20_000 },
            Point { x: 10_000, y: 25_000 },
        ]
    );
    assert!(bullet_vertices(0, 20_000).is_empty());
    let ship = get_ship_vertices(100_000, 380_000);
    assert_eq!(ship.len(), 9);
    assert_eq!(ship[2], Point { x: 115_000, y: 370_000 });
    assert_eq!(ship[8], Point { x: 145_000, y: 375_000 });
    let mine = get_mine_vertices(50_000, 60_000);
    assert_eq!(mine[5], Point { x: 50_000, y: 48_000 });
    assert_eq!(mine[1], Point { x: 56_000, y: 66_000 });
}

#[test]
fn fish_outline_unrotated() {
    let v = fish_vertices(0, 100_000, 200_000, 0, 1000);
    assert_eq!(v.len(), 10);
    let cx = 100_000 + 500 * 1000 / 4000;
    let cy = 200_000 + 500;
    assert_eq!(v[2], Point { x: cx - 5000, y: cy - 500 });
    assert_eq!(v[9], Point { x: cx + 1000, y: cy + 500 });
}

#[test]
fn fish_outline_rotated_half_turn() {
    let v = fish_vertices(0, 100_000, 200_000, 3142, 1000);
    let cx = 100_000 + 125;
    let cy = 200_000 + 500;
    assert_eq!(v[8], Point { x: cx - 1000, y: cy + 500 });
}

#[test]
fn a_long_frame_scrolls_far() {
    let mut game = Game::new(12);
    game.advance_frame(FRAME, 1667);
    game.advance_frame(1_000_000, 400_000);
    assert_eq!(game.water.arena_x, -401_667);
    let n = game.water.surfaces.len();
    assert!(game.water.arena_x + game.water.surfaces[n - 1].pos.x >= 640_000);
}
