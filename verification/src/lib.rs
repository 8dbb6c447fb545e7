//! A verified simulation core for a split-screen, two-player arena: two
//! player-controlled entities move on a plane, each carries a sphere collider
//! that mirrors its position, a naive pairwise sweep reports overlapping
//! colliders of different owners, and the first reported overlap teleports the
//! offending player out along the X axis.  Two cameras follow the players and
//! split the window into two side-by-side viewports.
//!
//! All world coordinates are held in milliunits (one thousandth of a world
//! unit) and time in whole milliseconds, so that every step of the simulation
//! is exact integer arithmetic with contracts proved about it.

pub mod collision;
pub mod follow;
pub mod geom;
pub mod movement;
pub mod scene;
pub mod tick;
pub mod viewport;

pub use geom::Position;
