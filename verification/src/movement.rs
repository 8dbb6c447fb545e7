use vstd::prelude::*;

verus! {

use crate::geom::{Position, lemma_mul_reassoc, pos_in_play, pos_in_range};
use crate::scene::{KeyState, Player};

/// Milliunits a held key moves a player per millisecond of elapsed time:
/// five world units per second.
pub const MOVEMENT_SPEED: i64 = 5;

/// Sideways direction for the player with this identifier: the A and D keys
/// drive player 1, the left and right arrows player 2.  Opposing held keys
/// cancel.
pub open spec fn x_direction(keys: KeyState, id: i32) -> int {
    (if (id == 1 && keys.key_a) || (id == 2 && keys.arrow_left) {
        -1int
    } else {
        0int
    }) + (if (id == 1 && keys.key_d) || (id == 2 && keys.arrow_right) {
        1int
    } else {
        0int
    })
}

/// Depth direction for the player with this identifier: the W and S keys
/// drive player 1, the up and down arrows player 2.  Opposing held keys
/// cancel.
pub open spec fn z_direction(keys: KeyState, id: i32) -> int {
    (if (id == 1 && keys.key_w) || (id == 2 && keys.arrow_up) {
        -1int
    } else {
        0int
    }) + (if (id == 1 && keys.key_s) || (id == 2 && keys.arrow_down) {
        1int
    } else {
        0int
    })
}

/// No directional key of either player is held.
pub open spec fn no_movement_keys_held(keys: KeyState) -> bool {
    &&& !keys.key_w
    &&& !keys.key_a
    &&& !keys.key_s
    &&& !keys.key_d
    &&& !keys.arrow_up
    &&& !keys.arrow_down
    &&& !keys.arrow_left
    &&& !keys.arrow_right
}

/// Where one input step puts a player: each axis moves by its direction times
/// speed times elapsed time, the vertical axis and everything else stay put.
pub open spec fn step_player(p: Player, keys: KeyState, dt_ms: u32) -> Player {
    Player {
        id: p.id,
        vel: p.vel,
        pos: Position {
            x: (p.pos.x + x_direction(keys, p.id) * MOVEMENT_SPEED * dt_ms) as i64,
            y: p.pos.y,
            z: (p.pos.z + z_direction(keys, p.id) * MOVEMENT_SPEED * dt_ms) as i64,
        },
    }
}

/// Where one input step puts every player.
pub open spec fn step_players(ps: Seq<Player>, keys: KeyState, dt_ms: u32) -> Seq<Player> {
    Seq::new(ps.len(), |m: int| step_player(ps[m], keys, dt_ms))
}

/// With no directional key held, an input step leaves every player exactly
/// where it was, whatever time elapsed.
pub proof fn lemma_no_keys_no_motion(ps: Seq<Player>, keys: KeyState, dt_ms: u32)
    requires
        no_movement_keys_held(keys),
    ensures
        step_players(ps, keys, dt_ms) == ps,
{
    assert forall|m: int| 0 <= m < ps.len() implies step_players(ps, keys, dt_ms)[m] == ps[m] by {
        assert(x_direction(keys, ps[m].id) == 0);
        assert(z_direction(keys, ps[m].id) == 0);
    }
    assert(step_players(ps, keys, dt_ms) =~= ps);
}

/// Read the directional keys mapped to each player and move it by direction
/// times speed times elapsed time along the X and Z axes independently.
pub fn player_movement(players: &mut Vec<Player>, keys: &KeyState, dt_ms: u32)
    requires
        forall|m: int|
            0 <= m < old(players)@.len() ==> pos_in_play((#[trigger] old(players)@[m]).pos),
    ensures
        final(players)@ == step_players(old(players)@, *keys, dt_ms),
        forall|m: int|
            0 <= m < final(players)@.len() ==> pos_in_range((#[trigger] final(players)@[m]).pos),
{
    let n = players.len();
    let mut m: usize = 0;
    while m < n
        invariant
            n == players@.len(),
            m <= n,
            players@.len() == old(players)@.len(),
            forall|i: int| m <= i < n ==> players@[i] == old(players)@[i],
            forall|i: int|
                0 <= i < old(players)@.len() ==> pos_in_play((#[trigger] old(players)@[i]).pos),
            forall|i: int|
                0 <= i < m ==> players@[i] == step_player(
                    old(players)@[i],
                    *keys,
                    dt_ms,
                ) && pos_in_range((#[trigger] players@[i]).pos),
        decreases n - m,
    {
        let p = players[m];
        let step: i64 = MOVEMENT_SPEED * (dt_ms as i64);
        let mut moved = p;

        let mut direction: i64 = 0;
        if (p.id == 1 && keys.key_a) || (p.id == 2 && keys.arrow_left) {
            direction = direction - 1;
        }
        if (p.id == 1 && keys.key_d) || (p.id == 2 && keys.arrow_right) {
            direction = direction + 1;
        }
        if direction != 0 {
            moved.pos.x = if direction > 0 {
                p.pos.x + step
            } else {
                p.pos.x - step
            };
        }
        proof {
            assert(direction == x_direction(*keys, p.id));
            lemma_mul_reassoc(direction as int, MOVEMENT_SPEED as int, dt_ms as int);
            assert(moved.pos.x == p.pos.x + x_direction(*keys, p.id) * MOVEMENT_SPEED * dt_ms);
        }

        let mut direction: i64 = 0;
        if (p.id == 1 && keys.key_w) || (p.id == 2 && keys.arrow_up) {
            direction = direction - 1;
        }
        if (p.id == 1 && keys.key_s) || (p.id == 2 && keys.arrow_down) {
            direction = direction + 1;
        }
        if direction != 0 {
            moved.pos.z = if direction > 0 {
                p.pos.z + step
            } else {
                p.pos.z - step
            };
        }
        proof {
            assert(direction == z_direction(*keys, p.id));
            lemma_mul_reassoc(direction as int, MOVEMENT_SPEED as int, dt_ms as int);
            assert(moved.pos.z == p.pos.z + z_direction(*keys, p.id) * MOVEMENT_SPEED * dt_ms);
            assert(moved == step_player(p, *keys, dt_ms));
        }

        players.set(m, moved);
        m = m + 1;
    }
    proof {
        assert(players@ =~= step_players(old(players)@, *keys, dt_ms));
    }
}

/// One input step: move the players by their held keys, and report whether
/// the debug-spawn key is held (the caller then spawns an untracked marker
/// object that never takes part in collision).
pub fn handle_input(players: &mut Vec<Player>, keys: &KeyState, dt_ms: u32) -> (spawn_debug: bool)
    requires
        forall|m: int|
            0 <= m < old(players)@.len() ==> pos_in_play((#[trigger] old(players)@[m]).pos),
    ensures
        final(players)@ == step_players(old(players)@, *keys, dt_ms),
        forall|m: int|
            0 <= m < final(players)@.len() ==> pos_in_range((#[trigger] final(players)@[m]).pos),
        spawn_debug == keys.space,
{
    player_movement(players, keys, dt_ms);
    keys.space
}

} // verus!
