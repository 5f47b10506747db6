//! Positions and the overlap test for axis-aligned boxes.
use vstd::prelude::*;

verus! {

/// The centre of a box, in length units.
#[derive(Clone, Copy, Debug, PartialEq, Eq, Structural)]
pub struct Position {
    pub x: i64,
    pub y: i64,
}

/// Whether the intervals of length `a_size` around `a` and of length `b_size`
/// around `b` share more than an end point. Stated over doubled coordinates,
/// so that half an edge is a whole number.
pub open spec fn spans_overlap(a: int, a_size: int, b: int, b_size: int) -> bool {
    2 * a - a_size < 2 * b + b_size && 2 * a + a_size > 2 * b - b_size
}

/// Whether the square of edge `a_size` centred at `a` and the square of edge
/// `b_size` centred at `b` overlap. Boxes that only touch do not overlap.
pub open spec fn boxes_overlap(a: Position, a_size: int, b: Position, b_size: int) -> bool {
    spans_overlap(a.x as int, a_size, b.x as int, b_size)
        && spans_overlap(a.y as int, a_size, b.y as int, b_size)
}

/// Whether a player centred at `player` overlaps the tile centred at `tile`.
pub open spec fn player_hits_tile(player: Position, tile: Position) -> bool {
    boxes_overlap(player, crate::PLAYERSIZE as int, tile, crate::TILESIZE as int)
}

/// Computes [`spans_overlap`].
fn spans_collide(a: i64, a_size: u32, b: i64, b_size: u32) -> (hit: bool)
    ensures
        hit == spans_overlap(a as int, a_size as int, b as int, b_size as int),
{
    let a2: i128 = 2 * (a as i128);
    let b2: i128 = 2 * (b as i128);
    a2 - (a_size as i128) < b2 + (b_size as i128) && a2 + (a_size as i128) > b2 - (b_size as i128)
}

/// Overlap test for two axis-aligned squares given by centre and edge length.
pub fn collide(a_pos: Position, a_size: u32, b_pos: Position, b_size: u32) -> (hit: bool)
    ensures
        hit == boxes_overlap(a_pos, a_size as int, b_pos, b_size as int),
{
    spans_collide(a_pos.x, a_size, b_pos.x, b_size) && spans_collide(
        a_pos.y,
        a_size,
        b_pos.y,
        b_size,
    )
}

/// The position `delta` away from `from` along one axis, held at the ends of
/// the representable range.
pub open spec fn shifted(from: i64, delta: i64) -> i64 {
    if from + delta > i64::MAX {
        i64::MAX
    } else if from + delta < i64::MIN {
        i64::MIN
    } else {
        (from + delta) as i64
    }
}

/// Computes [`shifted`].
pub fn shift(from: i64, delta: i64) -> (to: i64)
    ensures
        to == shifted(from, delta),
{
    let sum: i128 = from as i128 + delta as i128;
    if sum > i64::MAX as i128 {
        i64::MAX
    } else if sum < i64::MIN as i128 {
        i64::MIN
    } else {
        sum as i64
    }
}

} // verus!
