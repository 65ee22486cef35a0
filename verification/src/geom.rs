//! Points with integer coordinates and the disk-membership predicates.

use vstd::prelude::*;

verus! {

/// Greatest magnitude a disk center coordinate may have.
pub const COORD_LIMIT: i64 = 0x4000_0000;

/// Greatest disk radius the samplers accept.
pub const RADIUS_LIMIT: i64 = 0x0010_0000;

/// A position in the plane. Coordinates are plain integers; a caller that
/// thinks in fractional units picks its own scale (one unit per pixel, say).
#[derive(Clone, Copy, PartialEq, Eq, Structural, Debug)]
pub struct Point {
    pub x: i64,
    pub y: i64,
}

/// Squared Euclidean distance between `p` and `c`.
pub open spec fn dist2(p: Point, c: Point) -> int {
    (p.x - c.x) * (p.x - c.x) + (p.y - c.y) * (p.y - c.y)
}

/// `p` lies in the closed disk of center `c` and radius `radius`.
pub open spec fn in_disk(p: Point, c: Point, radius: int) -> bool {
    dist2(p, c) <= radius * radius
}

/// `p` lies in the open disk of center `c` and radius `radius`.
pub open spec fn strictly_in_disk(p: Point, c: Point, radius: int) -> bool {
    dist2(p, c) < radius * radius
}

/// The center is small enough that every point of the disk fits in `i64`
/// arithmetic without overflow.
pub open spec fn valid_center(c: Point) -> bool {
    &&& -COORD_LIMIT <= c.x <= COORD_LIMIT
    &&& -COORD_LIMIT <= c.y <= COORD_LIMIT
}

/// A radius the samplers accept: non-negative and small enough that its
/// square fits comfortably in `i64`.
pub open spec fn valid_radius(radius: i64) -> bool {
    0 <= radius <= RADIUS_LIMIT
}

/// Runtime test of open-disk membership; this is the accept test of the
/// rejection sampler.
pub fn is_strictly_inside(p: Point, c: Point, radius: i64) -> (r: bool)
    requires
        valid_radius(radius),
        c.x - RADIUS_LIMIT <= p.x <= c.x + RADIUS_LIMIT,
        c.y - RADIUS_LIMIT <= p.y <= c.y + RADIUS_LIMIT,
        valid_center(c),
    ensures
        r == strictly_in_disk(p, c, radius as int),
{
    let dx: i64 = p.x - c.x;
    let dy: i64 = p.y - c.y;
    proof {
        crate::math::lemma_square_bound(dx as int, RADIUS_LIMIT as int);
        crate::math::lemma_square_bound(dy as int, RADIUS_LIMIT as int);
        crate::math::lemma_square_bound(radius as int, RADIUS_LIMIT as int);
    }
    dx * dx + dy * dy < radius * radius
}

} // verus!
