use splitscreen::collision::{check_for_collisions, detect_overlaps, sphere_collision};
use splitscreen::geom::Position;
use splitscreen::scene::{Collider, Player};

fn collider(owner: i32, x: i64, radius: u32) -> Collider {
    Collider { owner, pos: Position { x, y: 0, z: 0 }, radius }
}

fn player(id: i32, x: i64) -> Player {
    Player {
        id,
        pos: Position { x, y: 0, z: 0 },
        vel: Position { x: 0, y: 0, z: 0 },
    }
}

#[test]
fn overlap_at_exact_touching_distance() {
    // Centers one unit apart, radii half a unit each: distance == radius sum.
    let c1 = collider(1, 0, 500);
    let c2 = collider(2, 1000, 500);
    assert!(sphere_collision(&c1, &c2));
}

#[test]
fn no_overlap_just_past_touching_distance() {
    let c1 = collider(1, 0, 500);
    let c2 = collider(2, 1001, 500);
    assert!(!sphere_collision(&c1, &c2));
}

#[test]
fn overlap_uses_all_three_axes() {
    let near = Collider { owner: 1, pos: Position { x: 300, y: 400, z: 0 }, radius: 250 };
    let far = Collider { owner: 2, pos: Position { x: 0, y: 0, z: 0 }, radius: 250 };
    // Distance is exactly 500 == 250 + 250.
    assert!(sphere_collision(&near, &far));
    let too_far = Collider { owner: 1, pos: Position { x: 300, y: 400, z: 1 }, radius: 250 };
    assert!(!sphere_collision(&too_far, &far));
}

#[test]
fn detector_reports_pairs_of_distinct_owners() {
    let cs = vec![collider(1, 0, 500), collider(2, 800, 500)];
    let pairs = detect_overlaps(&cs);
    assert_eq!(pairs, vec![(0, 1), (1, 0)]);
}

#[test]
fn same_owner_is_never_reported_even_when_coincident() {
    let cs = vec![collider(7, 0, 500), collider(7, 0, 500)];
    let pairs = detect_overlaps(&cs);
    assert_eq!(pairs, Vec::<(usize, usize)>::new());
}

#[test]
fn coincident_distinct_owners_are_reported_in_both_orders() {
    let cs = vec![collider(1, 0, 500), collider(2, 0, 500)];
    let pairs = detect_overlaps(&cs);
    assert_eq!(pairs, vec![(0, 1), (1, 0)]);
}

#[test]
fn separated_colliders_report_nothing() {
    let cs = vec![collider(1, 0, 500), collider(2, 5000, 500)];
    let pairs = detect_overlaps(&cs);
    assert!(pairs.is_empty());
}

#[test]
fn resolution_pushes_positive_side_out() {
    // Entity A at x = 1 overlapping entity B at x = 0 with radius 0.5:
    // resolution moves A to x = 0 + 1.0 = 1.0.
    let mut players = vec![player(1, 1000), player(2, 0)];
    let colliders = vec![collider(1, 1000, 500), collider(2, 0, 500)];
    let events = check_for_collisions(&mut players, &colliders);
    assert_eq!(events, 1);
    assert_eq!(players[0].pos.x, 1000);
    assert_eq!(players[0].pos.y, 0);
    assert_eq!(players[0].pos.z, 0);
    assert_eq!(players[1].pos.x, 0);
}

#[test]
fn resolution_pushes_negative_side_out() {
    // Entity A at x = -1 overlapping B at x = 0 with radius 0.5:
    // resolution moves A to x = 0 - 1.0 = -1.0.
    let mut players = vec![player(1, -1000), player(2, 0)];
    let colliders = vec![collider(1, -1000, 500), collider(2, 0, 500)];
    let events = check_for_collisions(&mut players, &colliders);
    assert_eq!(events, 1);
    assert_eq!(players[0].pos.x, -1000);
    assert_eq!(players[1].pos.x, 0);
}

#[test]
fn exact_x_tie_breaks_toward_negative() {
    let mut players = vec![player(1, 0), player(2, 0)];
    let colliders = vec![collider(1, 0, 500), collider(2, 0, 500)];
    let events = check_for_collisions(&mut players, &colliders);
    assert_eq!(events, 1);
    assert_eq!(players[0].pos.x, -1000);
}

#[test]
fn only_first_reported_pair_resolves_per_tick() {
    // Pairs (0,1) and (1,2) both overlap; only the first in enumeration
    // order moves a player, the second is ignored this tick.
    let mut players = vec![player(1, 0), player(2, 600), player(3, 1200)];
    let colliders = vec![collider(1, 0, 500), collider(2, 600, 500), collider(3, 1200, 500)];
    let events = check_for_collisions(&mut players, &colliders);
    assert_eq!(events, 1);
    // First pair: owner 1 against owner 2; 0 > 600 is false, so player 1
    // lands at 600 - 1000.
    assert_eq!(players[0].pos.x, -400);
    assert_eq!(players[1].pos.x, 600);
    assert_eq!(players[2].pos.x, 1200);
}

#[test]
fn empty_and_singleton_lists_have_no_pairs() {
    let none: Vec<Collider> = Vec::new();
    assert!(detect_overlaps(&none).is_empty());
    let one = vec![collider(1, 0, 500)];
    assert!(detect_overlaps(&one).is_empty());
    let mut players = vec![player(1, 0)];
    assert_eq!(check_for_collisions(&mut players, &one), 0);
    assert_eq!(players[0].pos.x, 0);
}

#[test]
fn zero_radius_colliders_overlap_only_when_coincident() {
    let c1 = collider(1, 0, 0);
    let c2 = collider(2, 0, 0);
    assert!(sphere_collision(&c1, &c2));
    let c3 = collider(2, 1, 0);
    assert!(!sphere_collision(&c1, &c3));
}

#[test]
fn every_pair_raises_an_event_when_no_owner_has_a_player() {
    let mut players = vec![player(9, 0)];
    let colliders = vec![collider(1, 0, 500), collider(2, 0, 500)];
    let events = check_for_collisions(&mut players, &colliders);
    assert_eq!(events, 2);
    assert_eq!(players[0].pos.x, 0);
}
