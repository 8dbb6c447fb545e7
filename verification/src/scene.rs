use vstd::prelude::*;

verus! {

use crate::geom::Position;

/// A player-controlled entity.  The velocity is part of the entity's state but
/// is never integrated by the simulation: movement writes positions directly.
#[derive(Clone, Copy, PartialEq, Eq, Structural, Debug)]
pub struct Player {
    pub id: i32,
    pub pos: Position,
    pub vel: Position,
}

/// A sphere collider owned by the player with the matching identifier.  Its
/// position mirrors the owning player's position once per tick.
#[derive(Clone, Copy, PartialEq, Eq, Structural, Debug)]
pub struct Collider {
    pub owner: i32,
    pub pos: Position,
    pub radius: u32,
}

/// A screen-space rectangle a camera renders into, in physical pixels.  The
/// depth range is the fixed whole interval for both cameras and is not stored.
#[derive(Clone, Copy, PartialEq, Eq, Structural, Debug)]
pub struct Viewport {
    pub x: u32,
    pub y: u32,
    pub width: u32,
    pub height: u32,
}

/// A camera tied to the player with the matching identifier: it sits at a
/// fixed offset from the player, aims at the player, and renders into its
/// viewport.
#[derive(Clone, Copy, PartialEq, Eq, Structural, Debug)]
pub struct Camera {
    pub id: i32,
    pub pos: Position,
    pub target: Position,
    pub viewport: Viewport,
}

/// Key-down state of the keys the simulation reads, polled once per tick.
#[derive(Clone, Copy, PartialEq, Eq, Structural, Debug)]
pub struct KeyState {
    pub key_w: bool,
    pub key_a: bool,
    pub key_s: bool,
    pub key_d: bool,
    pub arrow_up: bool,
    pub arrow_down: bool,
    pub arrow_left: bool,
    pub arrow_right: bool,
    pub space: bool,
}

/// Exactly one player per identifier: identifiers are never shared.
pub open spec fn unique_ids(ps: Seq<Player>) -> bool {
    forall|i: int, j: int| 0 <= i < j < ps.len() ==> ps[i].id != ps[j].id
}

} // verus!
