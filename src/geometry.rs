use vstd::prelude::*;

verus! {

/// A point (or a displacement) in the diagram plane, in whole units.
#[derive(Clone, Copy, Debug, PartialEq, Eq, Structural)]
pub struct Point {
    pub x: i32,
    pub y: i32,
}

impl Point {
    pub fn new(x: i32, y: i32) -> (r: Point)
        ensures
            r.x == x,
            r.y == y,
    {
        Point { x, y }
    }
}

/// Squared Euclidean distance between two points.
pub open spec fn sq_dist(a: Point, b: Point) -> int {
    (a.x - b.x) * (a.x - b.x) + (a.y - b.y) * (a.y - b.y)
}

/// `p` lies inside the closed disc of radius `radius` around `center`.
pub open spec fn in_disc(p: Point, center: Point, radius: u32) -> bool {
    sq_dist(p, center) <= radius * radius
}

/// Tells whether `p` lies within `radius` of `center`, boundary included,
/// by comparing squared distances (no square root).
pub fn within_radius(p: Point, center: Point, radius: u32) -> (r: bool)
    ensures
        r == in_disc(p, center, radius),
{
    let dx: i128 = p.x as i128 - center.x as i128;
    let dy: i128 = p.y as i128 - center.y as i128;
    assert(dx * dx <= 0x1_0000_0000_0000_0000) by (nonlinear_arith)
        requires
            -0x1_0000_0000 <= dx <= 0x1_0000_0000,
    ;
    assert(dy * dy <= 0x1_0000_0000_0000_0000) by (nonlinear_arith)
        requires
            -0x1_0000_0000 <= dy <= 0x1_0000_0000,
    ;
    assert(0 <= dx * dx && 0 <= dy * dy) by (nonlinear_arith);
    let rr: i128 = radius as i128;
    assert(rr * rr <= 0x1_0000_0000_0000_0000) by (nonlinear_arith)
        requires
            0 <= rr <= 0x1_0000_0000,
    ;
    dx * dx + dy * dy <= rr * rr
}

} // verus!
