use splitscreen::geom::Position;
use splitscreen::movement::{handle_input, player_movement};
use splitscreen::scene::{Camera, KeyState, Player, Viewport};
use splitscreen::viewport::on_resize_system;

fn no_keys() -> KeyState {
    KeyState {
        key_w: false,
        key_a: false,
        key_s: false,
        key_d: false,
        arrow_up: false,
        arrow_down: false,
        arrow_left: false,
        arrow_right: false,
        space: false,
    }
}

fn player(id: i32, x: i64, z: i64) -> Player {
    Player {
        id,
        pos: Position { x, y: 500, z },
        vel: Position { x: 0, y: 0, z: 0 },
    }
}

fn camera(id: i32) -> Camera {
    Camera {
        id,
        pos: Position { x: 0, y: 0, z: 0 },
        target: Position { x: 0, y: 0, z: 0 },
        viewport: Viewport { x: 0, y: 0, width: 75, height: 150 },
    }
}

#[test]
fn no_keys_held_leaves_positions_unchanged() {
    // Whatever time elapsed, an input step without held keys moves nothing.
    for dt in [0u32, 1, 16, 1000, 123_456_789] {
        let mut players = vec![player(1, 600, 0), player(2, 0, -300)];
        player_movement(&mut players, &no_keys(), dt);
        assert_eq!(players[0].pos.x, 600);
        assert_eq!(players[0].pos.z, 0);
        assert_eq!(players[1].pos.x, 0);
        assert_eq!(players[1].pos.z, -300);
    }
}

#[test]
fn held_key_moves_at_five_units_per_second() {
    // 100 ms at 5 units/s is half a unit: 500 milliunits.
    let mut players = vec![player(1, 0, 0)];
    let keys = KeyState { key_d: true, ..no_keys() };
    player_movement(&mut players, &keys, 100);
    assert_eq!(players[0].pos.x, 500);
    assert_eq!(players[0].pos.z, 0);
}

#[test]
fn both_axes_move_in_the_same_step() {
    let mut players = vec![player(1, 0, 0)];
    let keys = KeyState { key_a: true, key_w: true, ..no_keys() };
    player_movement(&mut players, &keys, 200);
    assert_eq!(players[0].pos.x, -1000);
    assert_eq!(players[0].pos.z, -1000);
}

#[test]
fn opposing_keys_cancel() {
    let mut players = vec![player(1, 0, 0)];
    let keys = KeyState { key_a: true, key_d: true, ..no_keys() };
    player_movement(&mut players, &keys, 500);
    assert_eq!(players[0].pos.x, 0);
}

#[test]
fn each_player_reads_its_own_keys() {
    let mut players = vec![player(1, 0, 0), player(2, 0, 0)];
    let keys = KeyState { arrow_right: true, ..no_keys() };
    player_movement(&mut players, &keys, 100);
    assert_eq!(players[0].pos.x, 0);
    assert_eq!(players[1].pos.x, 500);
}

#[test]
fn space_requests_a_debug_spawn_without_moving() {
    let mut players = vec![player(1, 600, 0)];
    let keys = KeyState { space: true, ..no_keys() };
    let spawn = handle_input(&mut players, &keys, 5000);
    assert!(spawn);
    assert_eq!(players[0].pos.x, 600);
    assert!(!handle_input(&mut players, &no_keys(), 5000));
}

#[test]
fn resize_splits_the_scaled_window_in_half() {
    // Logical 800 by 600, multiplier 1.5: owner 1 gets origin (0,0) size
    // (600,900), owner 2 gets origin (600,0) size (600,900).
    let mut cameras = vec![camera(1), camera(2)];
    let events = vec![(800u32, 600u32)];
    on_resize_system(&mut cameras, &events);
    assert_eq!(cameras[0].viewport, Viewport { x: 0, y: 0, width: 600, height: 900 });
    assert_eq!(cameras[1].viewport, Viewport { x: 600, y: 0, width: 600, height: 900 });
}

#[test]
fn only_the_last_resize_event_matters() {
    let mut cameras = vec![camera(1), camera(2)];
    let events = vec![(100u32, 100u32), (800u32, 600u32)];
    on_resize_system(&mut cameras, &events);
    assert_eq!(cameras[0].viewport.width, 600);
    assert_eq!(cameras[1].viewport.x, 600);
}

#[test]
fn no_resize_event_keeps_viewports() {
    let mut cameras = vec![camera(1), camera(2)];
    let events: Vec<(u32, u32)> = Vec::new();
    on_resize_system(&mut cameras, &events);
    assert_eq!(cameras[0].viewport, Viewport { x: 0, y: 0, width: 75, height: 150 });
    assert_eq!(cameras[1].viewport, Viewport { x: 0, y: 0, width: 75, height: 150 });
}

#[test]
fn zero_size_resize_keeps_viewports() {
    let mut cameras = vec![camera(1), camera(2)];
    let events = vec![(0u32, 0u32)];
    on_resize_system(&mut cameras, &events);
    assert_eq!(cameras[0].viewport, Viewport { x: 0, y: 0, width: 75, height: 150 });
}

#[test]
fn scaling_rounds_half_away_from_zero() {
    // Logical 3 scales to 4.5, which rounds to 5.
    let mut cameras = vec![camera(1)];
    let events = vec![(3u32, 3u32)];
    on_resize_system(&mut cameras, &events);
    assert_eq!(cameras[0].viewport, Viewport { x: 0, y: 0, width: 2, height: 5 });
}
