use vstd::prelude::*;

verus! {

use crate::collision::{
    all_in_range, check_for_collisions, first_resolution, overlap_pairs, resolvable, resolve_x,
};
use crate::follow::{camera_movement, followed_cameras, mirrored_colliders, sphere_collider_movement};
use crate::geom::{Position, pos_in_play, pos_in_range};
use crate::movement::{handle_input, step_players};
use crate::scene::{Camera, Collider, KeyState, Player, Viewport, unique_ids};
use crate::viewport::{scale_physical, scaled_len};

/// The two players at scene start: player 1's cube sits a little to the
/// right, player 2's at the origin, both half a unit above the ground plane.
pub open spec fn initial_players() -> Seq<Player> {
    seq![
        Player {
            id: 1,
            pos: Position { x: 600, y: 500, z: 0 },
            vel: Position { x: 0, y: 0, z: 0 },
        },
        Player {
            id: 2,
            pos: Position { x: 0, y: 500, z: 0 },
            vel: Position { x: 0, y: 0, z: 0 },
        },
    ]
}

/// The two half-unit sphere colliders at scene start, one per player; the
/// mirroring step snaps each onto its owner on the first tick.
pub open spec fn initial_colliders() -> Seq<Collider> {
    seq![
        Collider { owner: 1, pos: Position { x: -600i64, y: 500, z: 0 }, radius: 500 },
        Collider { owner: 2, pos: Position { x: 0, y: 500, z: 0 }, radius: 500 },
    ]
}

/// Physical window width the scene starts from: the last resize event seen
/// before setup, scaled; or 100 pixels when none arrived yet.
pub open spec fn startup_width(resize_events: Seq<(u32, u32)>) -> int {
    if resize_events.len() == 0 {
        100
    } else {
        scaled_len(resize_events.last().0)
    }
}

/// Physical window height the scene starts from, chosen like the width.
pub open spec fn startup_height(resize_events: Seq<(u32, u32)>) -> int {
    if resize_events.len() == 0 {
        100
    } else {
        scaled_len(resize_events.last().1)
    }
}

/// The fixed poses of the two cameras at scene start, aimed at the origin.
pub open spec fn initial_camera_poses() -> Seq<(i32, Position)> {
    seq![
        (1, Position { x: -2000i64, y: 2500, z: 5000 }),
        (2, Position { x: 10000, y: 10000, z: -5000i64 }),
    ]
}

/// Build the scene: the two players, their colliders and their cameras, with
/// the window split left/right between the cameras.  Unlike the resize
/// handler, setup lays the viewports out even for a zero startup width.  The
/// ground plane, the light and the meshes are rendering concerns and live
/// with the host.
pub fn setup(resize_events: &Vec<(u32, u32)>) -> (scene: (
    Vec<Player>,
    Vec<Collider>,
    Vec<Camera>,
))
    requires
        forall|e: int|
            0 <= e < resize_events@.len() ==> scaled_len((#[trigger] resize_events@[e]).0)
                <= u32::MAX && scaled_len(resize_events@[e].1) <= u32::MAX,
    ensures
        scene.0@ == initial_players(),
        scene.1@ == initial_colliders(),
        unique_ids(scene.0@),
        forall|m: int| 0 <= m < scene.0@.len() ==> pos_in_play((#[trigger] scene.0@[m]).pos),
        all_in_range(scene.1@),
        scene.2@.len() == 2,
        forall|i: int|
            0 <= i < 2 ==> (#[trigger] scene.2@[i]).id == initial_camera_poses()[i].0
                && scene.2@[i].pos == initial_camera_poses()[i].1 && scene.2@[i].target == (
            Position { x: 0, y: 0, z: 0 }),
        ({
            let w = startup_width(resize_events@);
            let h = startup_height(resize_events@);
            &&& scene.2@[0].viewport == (Viewport {
                x: 0,
                y: 0,
                width: (w / 2) as u32,
                height: h as u32,
            })
            &&& scene.2@[1].viewport == (Viewport {
                x: (w / 2) as u32,
                y: 0,
                width: (w / 2) as u32,
                height: h as u32,
            })
        }),
{
    let mut players: Vec<Player> = Vec::new();
    players.push(
        Player {
            id: 1,
            pos: Position { x: 600, y: 500, z: 0 },
            vel: Position { x: 0, y: 0, z: 0 },
        },
    );
    players.push(
        Player {
            id: 2,
            pos: Position { x: 0, y: 500, z: 0 },
            vel: Position { x: 0, y: 0, z: 0 },
        },
    );
    let mut colliders: Vec<Collider> = Vec::new();
    colliders.push(Collider { owner: 1, pos: Position { x: -600, y: 500, z: 0 }, radius: 500 });
    colliders.push(Collider { owner: 2, pos: Position { x: 0, y: 500, z: 0 }, radius: 500 });
    let mut width: u32 = 100;
    let mut height: u32 = 100;
    let ne = resize_events.len();
    let mut e: usize = 0;
    while e < ne
        invariant
            ne == resize_events@.len(),
            e <= ne,
            forall|i: int|
                0 <= i < resize_events@.len() ==> scaled_len((#[trigger] resize_events@[i]).0)
                    <= u32::MAX && scaled_len(resize_events@[i].1) <= u32::MAX,
            e == 0 ==> width == 100 && height == 100,
            e > 0 ==> width == scaled_len(resize_events@[e - 1].0) && height == scaled_len(
                resize_events@[e - 1].1,
            ),
        decreases ne - e,
    {
        let ev = resize_events[e];
        width = scale_physical(ev.0);
        height = scale_physical(ev.1);
        e = e + 1;
    }
    let mut cameras: Vec<Camera> = Vec::new();
    cameras.push(
        Camera {
            id: 1,
            pos: Position { x: -2000, y: 2500, z: 5000 },
            target: Position { x: 0, y: 0, z: 0 },
            viewport: Viewport { x: 0, y: 0, width: width / 2, height },
        },
    );
    cameras.push(
        Camera {
            id: 2,
            pos: Position { x: 10000, y: 10000, z: -5000 },
            target: Position { x: 0, y: 0, z: 0 },
            viewport: Viewport { x: width / 2, y: 0, width: width / 2, height },
        },
    );
    proof {
        assert(players@ =~= initial_players());
        assert(colliders@ =~= initial_colliders());
    }
    (players, colliders, cameras)
}

/// One simulation tick in the declared order: read input and move the
/// players, mirror each collider onto its owner, sweep the collider pairs and
/// resolve the first overlap, then snap the cameras behind the players.
/// Returns the number of collision events raised and whether the debug-spawn
/// key was held.
pub fn simulation_tick(
    players: &mut Vec<Player>,
    colliders: &mut Vec<Collider>,
    cameras: &mut Vec<Camera>,
    keys: &KeyState,
    dt_ms: u32,
) -> (r: (usize, bool))
    requires
        unique_ids(old(players)@),
        forall|m: int|
            0 <= m < old(players)@.len() ==> pos_in_play((#[trigger] old(players)@[m]).pos),
        all_in_range(old(colliders)@),
    ensures
        final(colliders)@ == mirrored_colliders(
            old(colliders)@,
            step_players(old(players)@, *keys, dt_ms),
        ),
        r.1 == keys.space,
        final(players)@.len() == old(players)@.len(),
        ({
            let ps1 = step_players(old(players)@, *keys, dt_ms);
            let cs1 = mirrored_colliders(old(colliders)@, ps1);
            &&& (forall|s: int|
                0 <= s < overlap_pairs(cs1).len() ==> !resolvable(
                    ps1,
                    cs1,
                    #[trigger] overlap_pairs(cs1)[s],
                )) ==> (final(players)@ == ps1 && r.0 == overlap_pairs(cs1).len())
            &&& (exists|s: int|
                0 <= s < overlap_pairs(cs1).len() && resolvable(
                    ps1,
                    cs1,
                    #[trigger] overlap_pairs(cs1)[s],
                )) ==> exists|t: int, k: int| first_resolution(ps1, cs1, t, k)
            &&& forall|t: int, k: int|
                #[trigger] first_resolution(ps1, cs1, t, k) ==> {
                    let pairs = overlap_pairs(cs1);
                    let c1 = cs1[pairs[t].0 as int];
                    let c2 = cs1[pairs[t].1 as int];
                    &&& r.0 == t + 1
                    &&& forall|m: int|
                        0 <= m < ps1.len() && m != k ==> final(players)@[m] == ps1[m]
                    &&& final(players)@[k].id == ps1[k].id
                    &&& final(players)@[k].vel == ps1[k].vel
                    &&& final(players)@[k].pos.y == ps1[k].pos.y
                    &&& final(players)@[k].pos.z == ps1[k].pos.z
                    &&& final(players)@[k].pos.x == resolve_x(c1, c2)
                }
        }),
        final(cameras)@ == followed_cameras(old(cameras)@, final(players)@),
{
    let spawn_debug = handle_input(players, keys, dt_ms);
    let ghost ps1 = players@;

    proof {
        assert forall|i: int, j: int| 0 <= i < j < ps1.len() implies ps1[i].id != ps1[j].id by {
            assert(ps1[i].id == old(players)@[i].id);
            assert(ps1[j].id == old(players)@[j].id);
        }
    }
    sphere_collider_movement(colliders, players);
    let ghost cs1 = colliders@;

    proof {
        assert forall|j: int| 0 <= j < cs1.len() implies pos_in_range(
            (#[trigger] cs1[j]).pos,
        ) by {
            assert(cs1[j] == mirrored_colliders(old(colliders)@, ps1)[j]);
            assert(pos_in_range(old(colliders)@[j].pos));
            if exists|k: int| 0 <= k < ps1.len() && ps1[k].id == old(colliders)@[j].owner {
                let kc = choose|k: int|
                    0 <= k < ps1.len() && ps1[k].id == old(colliders)@[j].owner;
                assert(pos_in_range(ps1[kc].pos));
            }
        }
    }
    let events = check_for_collisions(players, colliders);

    proof {
        let pairs = overlap_pairs(cs1);
        if exists|s: int| 0 <= s < pairs.len() && resolvable(ps1, cs1, #[trigger] pairs[s]) {
            let (t, k) = choose|t: int, k: int| first_resolution(ps1, cs1, t, k);
            assert(first_resolution(ps1, cs1, t, k));
            assert forall|m: int| 0 <= m < players@.len() implies (#[trigger] players@[m]).id
                == ps1[m].id && crate::geom::coord_in_range(players@[m].pos.y)
                && crate::geom::coord_in_range(players@[m].pos.z) by {
                assert(pos_in_range(ps1[m].pos));
                if m != k {
                    assert(players@[m] == ps1[m]);
                }
            }
        } else {
            assert(players@ == ps1);
            assert forall|m: int| 0 <= m < players@.len() implies crate::geom::coord_in_range(
                (#[trigger] players@[m]).pos.y,
            ) && crate::geom::coord_in_range(players@[m].pos.z) by {
                assert(pos_in_range(ps1[m].pos));
            }
        }
        assert forall|i: int, j: int| 0 <= i < j < players@.len() implies players@[i].id
            != players@[j].id by {
            assert(players@[i].id == ps1[i].id);
            assert(players@[j].id == ps1[j].id);
        }
    }
    camera_movement(cameras, players);
    (events, spawn_debug)
}

} // verus!
