use vstd::prelude::*;

verus! {

/// Largest magnitude a coordinate may have, in canvas units.
pub const COORD_LIMIT: i64 = 8192;

/// A position in canvas logical space, in whole canvas units; the host rounds pointer positions
/// to this grid.
#[derive(Clone, Copy, Debug, PartialEq, Eq, Structural)]
pub struct Point {
    pub x: i64,
    pub y: i64,
}

pub open spec fn coord_in_range(v: int) -> bool {
    -COORD_LIMIT <= v <= COORD_LIMIT
}

impl Point {
    /// Both coordinates lie within the canvas range.
    pub open spec fn wf(self) -> bool {
        coord_in_range(self.x as int) && coord_in_range(self.y as int)
    }

    /// Builds a point, refusing coordinates outside the canvas range.
    pub fn new(x: i64, y: i64) -> (r: Option<Point>)
        ensures
            r is Some <==> (coord_in_range(x as int) && coord_in_range(y as int)),
            r matches Some(p) ==> p.x == x && p.y == y && p.wf(),
    {
        if -COORD_LIMIT <= x && x <= COORD_LIMIT && -COORD_LIMIT <= y && y <= COORD_LIMIT {
            Some(Point { x, y })
        } else {
            None
        }
    }
}

/// Squared Euclidean distance between two points.
pub open spec fn dist2(a: Point, b: Point) -> int {
    (b.x - a.x) * (b.x - a.x) + (b.y - a.y) * (b.y - a.y)
}

/// Squared distance between two points, exact.
pub fn distance_squared(a: Point, b: Point) -> (r: u64)
    requires
        a.wf(),
        b.wf(),
    ensures
        r as int == dist2(a, b),
{
    let dx: i64 = b.x - a.x;
    let dy: i64 = b.y - a.y;
    assert(0 <= dx * dx <= 0x1000_0000) by (nonlinear_arith)
        requires -0x4000 <= dx <= 0x4000;
    assert(0 <= dy * dy <= 0x1000_0000) by (nonlinear_arith)
        requires -0x4000 <= dy <= 0x4000;
    (dx * dx + dy * dy) as u64
}

} // verus!
