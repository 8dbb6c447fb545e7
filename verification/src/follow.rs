use vstd::prelude::*;

verus! {

use crate::geom::{Position, coord_in_range};
use crate::scene::{Camera, Collider, Player, unique_ids};

/// Fixed offset a camera keeps from its player, in milliunits: ten units up
/// and ten units behind.
pub const CAMERA_OFFSET: i64 = 10000;

/// Index of the first player carrying this identifier, if any.
pub fn find_player(players: &Vec<Player>, id: i32) -> (found: Option<usize>)
    ensures
        match found {
            Some(k) => {
                &&& k < players@.len()
                &&& players@[k as int].id == id
                &&& forall|m: int| 0 <= m < k ==> players@[m].id != id
            },
            None => forall|m: int| 0 <= m < players@.len() ==> players@[m].id != id,
        },
{
    let n = players.len();
    let mut k: usize = 0;
    while k < n
        invariant
            n == players@.len(),
            k <= n,
            forall|m: int| 0 <= m < k ==> players@[m].id != id,
        decreases n - k,
    {
        if players[k].id == id {
            return Some(k);
        }
        k = k + 1;
    }
    None
}

/// Where the mirroring step puts a collider: at its owning player's position,
/// or where it was if no player carries its owner identifier.
pub open spec fn mirrored_collider(c: Collider, ps: Seq<Player>) -> Collider {
    if exists|k: int| 0 <= k < ps.len() && ps[k].id == c.owner {
        Collider { pos: ps[choose|k: int| 0 <= k < ps.len() && ps[k].id == c.owner].pos, ..c }
    } else {
        c
    }
}

/// Where the mirroring step puts every collider.
pub open spec fn mirrored_colliders(cs: Seq<Collider>, ps: Seq<Player>) -> Seq<Collider> {
    Seq::new(cs.len(), |j: int| mirrored_collider(cs[j], ps))
}

/// Mirror each collider's position to its owning player's position; owner and
/// radius never change, and a collider whose owner has no player stays put.
pub fn sphere_collider_movement(colliders: &mut Vec<Collider>, players: &Vec<Player>)
    requires
        unique_ids(players@),
    ensures
        final(colliders)@ == mirrored_colliders(old(colliders)@, players@),
{
    let n = colliders.len();
    let mut j: usize = 0;
    while j < n
        invariant
            unique_ids(players@),
            n == colliders@.len(),
            j <= n,
            colliders@.len() == old(colliders)@.len(),
            forall|i: int| j <= i < n ==> colliders@[i] == old(colliders)@[i],
            forall|i: int|
                0 <= i < j ==> colliders@[i] == mirrored_collider(
                    (#[trigger] old(colliders)@[i]),
                    players@,
                ),
        decreases n - j,
    {
        let c = colliders[j];
        match find_player(players, c.owner) {
            Some(k) => {
                let mut moved = c;
                moved.pos = players[k].pos;
                colliders.set(j, moved);
                proof {
                    let kc = choose|m: int| 0 <= m < players@.len() && players@[m].id == c.owner;
                    assert(players@[kc].id == c.owner && players@[k as int].id == c.owner);
                    assert(kc == k as int);
                }
            },
            None => {
                proof {
                    assert(colliders@[j as int] == mirrored_collider(
                        old(colliders)@[j as int],
                        players@,
                    ));
                }
            },
        }
        j = j + 1;
    }
    proof {
        assert(colliders@ =~= mirrored_colliders(old(colliders)@, players@));
    }
}

/// Where the follow step puts a camera: at its player's position raised and
/// pulled back by the fixed offset, aimed straight at the player; or where it
/// was if no player carries its identifier.  The viewport is untouched.
pub open spec fn followed_camera(cam: Camera, ps: Seq<Player>) -> Camera {
    if exists|k: int| 0 <= k < ps.len() && ps[k].id == cam.id {
        let p = ps[choose|k: int| 0 <= k < ps.len() && ps[k].id == cam.id];
        Camera {
            pos: Position {
                x: p.pos.x,
                y: (p.pos.y + CAMERA_OFFSET) as i64,
                z: (p.pos.z + CAMERA_OFFSET) as i64,
            },
            target: p.pos,
            ..cam
        }
    } else {
        cam
    }
}

/// Where the follow step puts every camera.
pub open spec fn followed_cameras(cams: Seq<Camera>, ps: Seq<Player>) -> Seq<Camera> {
    Seq::new(cams.len(), |i: int| followed_camera(cams[i], ps))
}

/// Snap each camera behind and above its player and aim it at the player.
/// There is no smoothing: the camera teleports every tick.
pub fn camera_movement(cameras: &mut Vec<Camera>, players: &Vec<Player>)
    requires
        unique_ids(players@),
        forall|k: int|
            0 <= k < players@.len() ==> coord_in_range((#[trigger] players@[k]).pos.y)
                && coord_in_range(players@[k].pos.z),
    ensures
        final(cameras)@ == followed_cameras(old(cameras)@, players@),
{
    let n = cameras.len();
    let mut i: usize = 0;
    while i < n
        invariant
            unique_ids(players@),
            forall|k: int|
                0 <= k < players@.len() ==> coord_in_range((#[trigger] players@[k]).pos.y)
                    && coord_in_range(players@[k].pos.z),
            n == cameras@.len(),
            i <= n,
            cameras@.len() == old(cameras)@.len(),
            forall|m: int| i <= m < n ==> cameras@[m] == old(cameras)@[m],
            forall|m: int|
                0 <= m < i ==> cameras@[m] == followed_camera(
                    (#[trigger] old(cameras)@[m]),
                    players@,
                ),
        decreases n - i,
    {
        let cam = cameras[i];
        match find_player(players, cam.id) {
            Some(k) => {
                let p = players[k];
                let mut moved = cam;
                moved.pos = Position {
                    x: p.pos.x,
                    y: p.pos.y + CAMERA_OFFSET,
                    z: p.pos.z + CAMERA_OFFSET,
                };
                moved.target = p.pos;
                cameras.set(i, moved);
                proof {
                    let kc = choose|m: int| 0 <= m < players@.len() && players@[m].id == cam.id;
                    assert(players@[kc].id == cam.id && players@[k as int].id == cam.id);
                    assert(kc == k as int);
                }
            },
            None => {
                proof {
                    assert(cameras@[i as int] == followed_camera(
                        old(cameras)@[i as int],
                        players@,
                    ));
                }
            },
        }
        i = i + 1;
    }
    proof {
        assert(cameras@ =~= followed_cameras(old(cameras)@, players@));
    }
}

} // verus!
