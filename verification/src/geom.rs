use vstd::prelude::*;

verus! {

/// Largest coordinate magnitude the simulation reasons about, in milliunits.
/// Keeping every coordinate within this bound lets squared distances of two
/// in-range points be computed exactly in 128-bit arithmetic.
pub const COORD_LIMIT: i64 = 0x2000_0000_0000_0000;

/// Coordinate bound for points that may still take one movement step without
/// leaving the range above: a step moves a point by at most
/// `5 * u32::MAX < 0x8_0000_0000` milliunits per axis.
pub const PLAY_LIMIT: i64 = COORD_LIMIT - 0x8_0000_0000;

/// A point (or translation) in world space, in milliunits per axis.
#[derive(Clone, Copy, PartialEq, Eq, Structural, Debug)]
pub struct Position {
    pub x: i64,
    pub y: i64,
    pub z: i64,
}

pub open spec fn coord_in_range(c: i64) -> bool {
    -COORD_LIMIT <= c <= COORD_LIMIT
}

pub open spec fn pos_in_range(p: Position) -> bool {
    coord_in_range(p.x) && coord_in_range(p.y) && coord_in_range(p.z)
}

pub open spec fn coord_in_play(c: i64) -> bool {
    -PLAY_LIMIT <= c <= PLAY_LIMIT
}

pub open spec fn pos_in_play(p: Position) -> bool {
    coord_in_play(p.x) && coord_in_play(p.y) && coord_in_play(p.z)
}

/// Squared Euclidean distance between two points, as a mathematical integer.
pub open spec fn dist_sq(a: Position, b: Position) -> int {
    (a.x - b.x) * (a.x - b.x) + (a.y - b.y) * (a.y - b.y) + (a.z - b.z) * (a.z - b.z)
}

/// Multiplication is associative; stated for the products the movement step
/// takes of a direction, a speed and an elapsed time.
pub proof fn lemma_mul_reassoc(d: int, s: int, t: int)
    ensures
        d * s * t == d * (s * t),
{
    assert(d * s * t == d * (s * t)) by (nonlinear_arith);
}

/// For nonnegative lengths, comparing squares is comparing the lengths:
/// the squared overlap test states "distance at most the radius sum"
/// exactly.
pub proof fn lemma_sq_le_iff(d: int, a: int)
    requires
        0 <= d,
        0 <= a,
    ensures
        (d * d <= a * a) <==> (d <= a),
{
    assert((d * d <= a * a) <==> (d <= a)) by (nonlinear_arith)
        requires
            0 <= d,
            0 <= a,
    ;
}

/// A square is monotone in the magnitude of its argument.
pub proof fn lemma_square_bound(v: int, b: int)
    requires
        -b <= v <= b,
    ensures
        0 <= v * v <= b * b,
{
    assert(0 <= v * v <= b * b) by (nonlinear_arith)
        requires
            -b <= v <= b,
    ;
}

} // verus!
