//! Axis-aligned box overlap, the collision primitive everything else uses.

use vstd::prelude::*;
use crate::math::{sabs, v2, Vec2i, V2, SIDE_LIMIT};
use crate::level::{Tile, tiles_wf};

verus! {

/// Downward gravitational acceleration, in coordinate steps per second
/// per second, applied every frame to every airborne body.
pub const GRAVITY_Y: i64 = -25_000;

/// Horizontal drag factor applied per second while the player is grounded.
pub const DRAG: i64 = 3;

/// Coordinate magnitude accepted by the overlap test; large enough for any
/// saturated position offset by any valid extent and displacement.
pub const GEOM_LIMIT: i64 = 2_000_000_000_000;

/// A coordinate pair every component of which the overlap test accepts.
pub open spec fn geom_ok(v: V2) -> bool {
    -GEOM_LIMIT <= v.x <= GEOM_LIMIT && -GEOM_LIMIT <= v.y <= GEOM_LIMIT
}

/// Two boxes centered at `p1` and `p2` with full extents `r1` and `r2`
/// overlap exactly when on both axes the center distance is strictly below
/// half the sum of the extents. Touching edges do not overlap, so a body can
/// rest flush against a tile without colliding with it.
pub open spec fn spec_collides(p1: V2, r1: V2, p2: V2, r2: V2) -> bool {
    &&& 2 * sabs(p1.x - p2.x) < r1.x + r2.x
    &&& 2 * sabs(p1.y - p2.y) < r1.y + r2.y
}

/// Whether the box at `pos1` with extents `rect1` overlaps the box at
/// `pos2` with extents `rect2`.
pub fn collides(pos1: Vec2i, rect1: Vec2i, pos2: Vec2i, rect2: Vec2i) -> (b: bool)
    requires
        geom_ok(pos1@),
        geom_ok(pos2@),
        rect1@.sides_ok(),
        rect2@.sides_ok(),
    ensures
        b == spec_collides(pos1@, rect1@, pos2@, rect2@),
{
    let dx: i64 = pos1.x - pos2.x;
    let ax: i64 = if dx >= 0 {
        dx
    } else {
        -dx
    };
    let dy: i64 = pos1.y - pos2.y;
    let ay: i64 = if dy >= 0 {
        dy
    } else {
        -dy
    };
    2 * ax < rect1.x + rect2.x && 2 * ay < rect1.y + rect2.y
}

/// The box at `pos`, displaced by `disp`, overlaps the tile `t`.
pub open spec fn tile_hit(pos: V2, sides: V2, disp: V2, t: Tile) -> bool {
    spec_collides(v2(pos.x + disp.x, pos.y + disp.y), sides, t@.position, t@.sides)
}

/// The box at `pos`, displaced by `disp`, overlaps some tile of the level.
/// This is the shared probe of every axis-separated resolution and of every
/// patrol probe; it is a disjunction over the tiles, so the scanning order
/// never matters.
pub open spec fn blocked(pos: V2, sides: V2, disp: V2, tiles: Seq<Tile>) -> bool {
    exists|i: int| 0 <= i < tiles.len() && tile_hit(pos, sides, disp, #[trigger] tiles[i])
}

/// Scan every tile for an overlap with the box displaced by `disp`.
pub fn any_tile_hit(pos: Vec2i, sides: Vec2i, disp: Vec2i, tiles: &Vec<Tile>) -> (b: bool)
    requires
        pos@.pos_ok(),
        sides@.sides_ok(),
        sabs(disp@.x) <= SIDE_LIMIT,
        sabs(disp@.y) <= SIDE_LIMIT,
        tiles_wf(tiles@),
    ensures
        b == blocked(pos@, sides@, disp@, tiles@),
{
    let probe = Vec2i::new(pos.x + disp.x, pos.y + disp.y);
    let mut hit = false;
    let n = tiles.len();
    let mut i: usize = 0;
    while i < n
        invariant
            0 <= i <= n,
            n == tiles@.len(),
            tiles_wf(tiles@),
            probe@ == v2(pos@.x + disp@.x, pos@.y + disp@.y),
            geom_ok(probe@),
            sides@.sides_ok(),
            hit ==> (exists|j: int|
                0 <= j < i && tile_hit(pos@, sides@, disp@, #[trigger] tiles@[j])),
            !hit ==> (forall|j: int|
                0 <= j < i ==> !tile_hit(pos@, sides@, disp@, #[trigger] tiles@[j])),
        decreases n - i,
    {
        let t = tiles[i];
        if collides(probe, sides, t.position, t.sides) {
            hit = true;
        }
        i += 1;
    }
    hit
}

/// Overlap is symmetric: swapping the two boxes never changes the answer.
pub proof fn lemma_collides_symmetric(p1: V2, r1: V2, p2: V2, r2: V2)
    ensures
        spec_collides(p1, r1, p2, r2) == spec_collides(p2, r2, p1, r1),
{
}

/// At exact tangency on either axis (the center distance equals half the
/// summed extents, a gap of zero) the boxes do not overlap.
pub proof fn lemma_collides_tangent(p1: V2, r1: V2, p2: V2, r2: V2)
    requires
        2 * sabs(p1.x - p2.x) == r1.x + r2.x || 2 * sabs(p1.y - p2.y) == r1.y + r2.y,
    ensures
        !spec_collides(p1, r1, p2, r2),
{
}

} // verus!
