use vstd::prelude::*;
use vstd::arithmetic::div_mod::{
    lemma_fundamental_div_mod,
    lemma_fundamental_div_mod_converse_div,
};

use crate::point::{Point, dist2};

verus! {

/// The center of a circle as the fraction `(x / den, y / den)`, with `den > 0`.
#[derive(Clone, Copy, Debug, PartialEq, Eq, Structural)]
pub struct Center {
    pub x: i64,
    pub y: i64,
    pub den: i64,
}

/// A squared radius as the fraction `num / den`.
#[derive(Clone, Copy, Debug, PartialEq, Eq, Structural)]
pub struct Radius {
    pub num: u128,
    pub den: u128,
}

/// Largest magnitude of a center numerator built from points of the canvas range.
pub const CENTER_LIMIT: i64 = 0x2000_0000_0000;

/// Largest center denominator built from points of the canvas range.
pub const DEN_LIMIT: i64 = 0x4000_0000;

/// One unit of a score. A hit-test score is the square of a shape's distance measure, counted
/// in steps of `1 / SCORE_UNIT` and rounded down: squaring keeps both the order of the measure
/// and its threshold, and keeps the arithmetic exact.
pub const SCORE_UNIT: u128 = 0x1_0000_0000;

/// Scores saturate at this value (a squared distance of 2^64 canvas units).
pub const SCORE_CAP: u128 = 0x1_0000_0000_0000_0000_0000_0000;

/// A shape is close enough to be picked when its score is below this: a distance of 10 units.
pub const SELECT_SCORE_LIMIT: u128 = 0x64_0000_0000;

/// Squared pointer distance under which a control point can be grabbed: 10 units.
pub const SELECT_DISTANCE_SQUARED: u64 = 100;

impl Center {
    pub open spec fn wf(self) -> bool {
        -CENTER_LIMIT <= self.x <= CENTER_LIMIT && -CENTER_LIMIT <= self.y <= CENTER_LIMIT && 0
            < self.den <= DEN_LIMIT
    }

    pub open spec fn view(self) -> (int, int, int) {
        (self.x as int, self.y as int, self.den as int)
    }
}

/// Twice the signed area of the triangle `a b c`; zero exactly when the points are collinear.
pub open spec fn cross(a: Point, b: Point, c: Point) -> int {
    (b.x - a.x) * (c.y - a.y) - (b.y - a.y) * (c.x - a.x)
}

/// Offset of the circumcenter from `a`, x part, scaled by `2 * cross(a, b, c)`.
pub open spec fn offset_x(a: Point, b: Point, c: Point) -> int {
    dist2(a, b) * (c.y - a.y) - dist2(a, c) * (b.y - a.y)
}

/// Offset of the circumcenter from `a`, y part, scaled by `2 * cross(a, b, c)`.
pub open spec fn offset_y(a: Point, b: Point, c: Point) -> int {
    dist2(a, c) * (b.x - a.x) - dist2(a, b) * (c.x - a.x)
}

/// The circumcenter of `a b c` as `(x, y, den)` with a positive denominator, or `None` when the
/// points are collinear (the perpendicular bisectors are parallel).
pub open spec fn circle_center(a: Point, b: Point, c: Point) -> Option<(int, int, int)> {
    let d = 2 * cross(a, b, c);
    let x = a.x * d + offset_x(a, b, c);
    let y = a.y * d + offset_y(a, b, c);
    if d > 0 {
        Some((x, y, d))
    } else if d < 0 {
        Some((-x, -y, -d))
    } else {
        None
    }
}

/// `den^2` times the squared distance between the center `(x / den, y / den)` and `p`.
pub open spec fn scaled_dist2(center: (int, int, int), p: Point) -> int {
    let (x, y, den) = center;
    (x - p.x * den) * (x - p.x * den) + (y - p.y * den) * (y - p.y * den)
}

/// The squared circumradius as `(num, den)`, measured from `center` to `p`.
pub open spec fn circle_radius(center: (int, int, int), p: Point) -> (int, int) {
    (scaled_dist2(center, p), center.2 * center.2)
}

/// A squared distance `num / den` as a score: `floor(SCORE_UNIT * num / den)`, saturating.
pub open spec fn score_value(num: int, den: int) -> int {
    let v = SCORE_UNIT * num / den;
    if v < SCORE_CAP {
        v
    } else {
        SCORE_CAP as int
    }
}

/// Score of a point against a segment: its squared distance to the segment's line when its
/// projection falls on the segment, `None` (infinitely far) otherwise.
pub open spec fn segment_score(a: Point, b: Point, p: Point) -> Option<int> {
    let len2 = dist2(a, b);
    let dot = (p.x - a.x) * (b.x - a.x) + (p.y - a.y) * (b.y - a.y);
    if len2 > 0 && 0 <= dot <= len2 {
        Some(score_value(cross(a, p, b) * cross(a, p, b), len2))
    } else {
        None
    }
}

/// `den` times `|p - center|^2 - r^2`, where the circle through `anchor` has the given center.
pub open spec fn circle_excess(center: (int, int, int), anchor: Point, p: Point) -> int {
    let (x, y, den) = center;
    den * ((p.x * p.x + p.y * p.y) - (anchor.x * anchor.x + anchor.y * anchor.y)) - 2 * ((p.x
        - anchor.x) * x + (p.y - anchor.y) * y)
}

/// Score of a point against a circle through `anchor`: the square of
/// `(|p - center|^2 - r^2) / r`, or `None` for a circle of radius zero.
pub open spec fn circle_score(center: (int, int, int), anchor: Point, p: Point) -> Option<int> {
    let q = scaled_dist2(center, anchor);
    let t = circle_excess(center, anchor, p);
    if q > 0 {
        Some(score_value(t * t, q))
    } else {
        None
    }
}

pub proof fn lemma_product_bound(a: int, b: int, ma: int, mb: int)
    requires
        -ma <= a <= ma,
        -mb <= b <= mb,
    ensures
        -(ma * mb) <= a * b <= ma * mb,
{
    assert(-(ma * mb) <= a * b <= ma * mb) by (nonlinear_arith)
        requires
            -ma <= a <= ma,
            -mb <= b <= mb,
    ;
}

/// Solves for the point equidistant from the three points, the intersection of the
/// perpendicular bisectors of `p0 p1` and `p0 p2`; `None` when the points are collinear.
pub fn compute_circle_center(points: &[Point; 3]) -> (r: Option<Center>)
    requires
        points[0].wf(),
        points[1].wf(),
        points[2].wf(),
    ensures
        r is None <==> circle_center(points[0], points[1], points[2]) is None,
        r matches Some(c) ==> c.wf() && circle_center(points[0], points[1], points[2]) == Some(
            c.view(),
        ),
{
    let a = points[0];
    let b = points[1];
    let c = points[2];
    let ux: i64 = b.x - a.x;
    let uy: i64 = b.y - a.y;
    let vx: i64 = c.x - a.x;
    let vy: i64 = c.y - a.y;
    proof {
        lemma_product_bound(ux as int, vy as int, 0x4000, 0x4000);
        lemma_product_bound(uy as int, vx as int, 0x4000, 0x4000);
        lemma_product_bound(ux as int, ux as int, 0x4000, 0x4000);
        lemma_product_bound(uy as int, uy as int, 0x4000, 0x4000);
        lemma_product_bound(vx as int, vx as int, 0x4000, 0x4000);
        lemma_product_bound(vy as int, vy as int, 0x4000, 0x4000);
    }
    let d: i64 = 2 * (ux * vy - uy * vx);
    if d == 0 {
        return None;
    }
    let uu: i64 = ux * ux + uy * uy;
    let vv: i64 = vx * vx + vy * vy;
    proof {
        lemma_product_bound(uu as int, vy as int, 0x2000_0000, 0x4000);
        lemma_product_bound(vv as int, uy as int, 0x2000_0000, 0x4000);
        lemma_product_bound(vv as int, ux as int, 0x2000_0000, 0x4000);
        lemma_product_bound(uu as int, vx as int, 0x2000_0000, 0x4000);
        lemma_product_bound(a.x as int, d as int, 0x2000, 0x4000_0000);
        lemma_product_bound(a.y as int, d as int, 0x2000, 0x4000_0000);
    }
    let ox: i64 = uu * vy - vv * uy;
    let oy: i64 = vv * ux - uu * vx;
    let nx: i64 = a.x * d + ox;
    let ny: i64 = a.y * d + oy;
    assert(uu == dist2(a, b));
    assert(vv == dist2(a, c));
    assert(ox == offset_x(a, b, c));
    assert(oy == offset_y(a, b, c));
    assert(d == 2 * cross(a, b, c));
    if d > 0 {
        Some(Center { x: nx, y: ny, den: d })
    } else {
        Some(Center { x: -nx, y: -ny, den: -d })
    }
}

/// The squared distance from `center` to `circle_point`, as an exact fraction.
pub fn compute_circle_radius(center: &Center, circle_point: &Point) -> (r: Radius)
    requires
        center.wf(),
        circle_point.wf(),
    ensures
        (r.num as int, r.den as int) == circle_radius(center.view(), *circle_point),
        r.num <= RATIO_DEN_LIMIT,
{
    proof {
        lemma_product_bound(circle_point.x as int, center.den as int, 0x2000, 0x4000_0000);
        lemma_product_bound(circle_point.y as int, center.den as int, 0x2000, 0x4000_0000);
    }
    let px: i128 = circle_point.x as i128 * center.den as i128;
    let py: i128 = circle_point.y as i128 * center.den as i128;
    let dx: i128 = center.x as i128 - px;
    let dy: i128 = center.y as i128 - py;
    proof {
        lemma_product_bound(dx as int, dx as int, 0x4000_0000_0000, 0x4000_0000_0000);
        lemma_product_bound(dy as int, dy as int, 0x4000_0000_0000, 0x4000_0000_0000);
        lemma_product_bound(center.den as int, center.den as int, 0x4000_0000, 0x4000_0000);
    }
    assert(0 <= dx * dx && 0 <= dy * dy) by (nonlinear_arith);
    let num: i128 = dx * dx + dy * dy;
    let den: i128 = center.den as i128 * center.den as i128;
    Radius { num: num as u128, den: den as u128 }
}

/// Negating the numerators and the denominator of a center keeps its scaled squared distances.
proof fn lemma_scaled_dist2_negated(x: int, y: int, den: int, p: Point)
    ensures
        scaled_dist2((-x, -y, -den), p) == scaled_dist2((x, y, den), p),
{
    assert((-x - p.x * (-den)) * (-x - p.x * (-den)) == (x - p.x * den) * (x - p.x * den))
        by (nonlinear_arith);
    assert((-y - p.y * (-den)) * (-y - p.y * (-den)) == (y - p.y * den) * (y - p.y * den))
        by (nonlinear_arith);
}

/// Moving from the offset `(ox, oy)` by `d` times `(ux, uy)` keeps the squared length when the
/// offset's projection on `(ux, uy)` is half of `d` times its squared length.
proof fn lemma_shift_keeps_length(ox: int, oy: int, ux: int, uy: int, d: int)
    requires
        2 * (ux * ox + uy * oy) == d * (ux * ux + uy * uy),
    ensures
        (ox - ux * d) * (ox - ux * d) + (oy - uy * d) * (oy - uy * d) == ox * ox + oy * oy,
{
    let px = ux * d;
    let py = uy * d;
    assert((ox - px) * (ox - px) == ox * ox - 2 * (ox * px) + px * px) by (nonlinear_arith);
    assert((oy - py) * (oy - py) == oy * oy - 2 * (oy * py) + py * py) by (nonlinear_arith);
    assert(ox * px + oy * py == d * (ux * ox + uy * oy)) by (nonlinear_arith)
        requires
            px == ux * d,
            py == uy * d,
    ;
    assert(px * px + py * py == d * (d * (ux * ux + uy * uy))) by (nonlinear_arith)
        requires
            px == ux * d,
            py == uy * d,
    ;
    assert(2 * (d * (ux * ox + uy * oy)) == d * (d * (ux * ux + uy * uy))) by (nonlinear_arith)
        requires
            2 * (ux * ox + uy * oy) == d * (ux * ux + uy * uy),
    ;
}

/// The circumcenter of three non-collinear points is equidistant from all three of them, and
/// the circumradius measured from any one of them is the same.
pub proof fn lemma_circumcenter_equidistant(a: Point, b: Point, c: Point)
    requires
        cross(a, b, c) != 0,
    ensures
        circle_center(a, b, c) is Some,
        scaled_dist2(circle_center(a, b, c)->Some_0, a) == scaled_dist2(
            circle_center(a, b, c)->Some_0,
            b,
        ),
        scaled_dist2(circle_center(a, b, c)->Some_0, a) == scaled_dist2(
            circle_center(a, b, c)->Some_0,
            c,
        ),
        circle_radius(circle_center(a, b, c)->Some_0, a) == circle_radius(
            circle_center(a, b, c)->Some_0,
            b,
        ),
        circle_radius(circle_center(a, b, c)->Some_0, a) == circle_radius(
            circle_center(a, b, c)->Some_0,
            c,
        ),
{
    let ux = b.x - a.x;
    let uy = b.y - a.y;
    let vx = c.x - a.x;
    let vy = c.y - a.y;
    let uu = ux * ux + uy * uy;
    let vv = vx * vx + vy * vy;
    let cr = ux * vy - uy * vx;
    let d = 2 * cr;
    let ox = uu * vy - vv * uy;
    let oy = vv * ux - uu * vx;
    assert(cross(a, b, c) == cr);
    assert(offset_x(a, b, c) == ox);
    assert(offset_y(a, b, c) == oy);
    let x = a.x * d + ox;
    let y = a.y * d + oy;
    assert(ux * ox + uy * oy == uu * cr) by (nonlinear_arith)
        requires
            ox == uu * vy - vv * uy,
            oy == vv * ux - uu * vx,
            cr == ux * vy - uy * vx,
    ;
    assert(vx * ox + vy * oy == vv * cr) by (nonlinear_arith)
        requires
            ox == uu * vy - vv * uy,
            oy == vv * ux - uu * vx,
            cr == ux * vy - uy * vx,
    ;
    assert(2 * (ux * ox + uy * oy) == d * uu) by (nonlinear_arith)
        requires
            ux * ox + uy * oy == uu * cr,
            d == 2 * cr,
    ;
    assert(2 * (vx * ox + vy * oy) == d * vv) by (nonlinear_arith)
        requires
            vx * ox + vy * oy == vv * cr,
            d == 2 * cr,
    ;
    lemma_shift_keeps_length(ox, oy, ux, uy, d);
    lemma_shift_keeps_length(ox, oy, vx, vy, d);
    assert(x - a.x * d == ox);
    assert(x - b.x * d == ox - ux * d) by (nonlinear_arith)
        requires
            x == a.x * d + ox,
            ux == b.x - a.x,
    ;
    assert(y - b.y * d == oy - uy * d) by (nonlinear_arith)
        requires
            y == a.y * d + oy,
            uy == b.y - a.y,
    ;
    assert(x - c.x * d == ox - vx * d) by (nonlinear_arith)
        requires
            x == a.x * d + ox,
            vx == c.x - a.x,
    ;
    assert(y - c.y * d == oy - vy * d) by (nonlinear_arith)
        requires
            y == a.y * d + oy,
            vy == c.y - a.y,
    ;
    assert(scaled_dist2((x, y, d), a) == scaled_dist2((x, y, d), b));
    assert(scaled_dist2((x, y, d), a) == scaled_dist2((x, y, d), c));
    lemma_scaled_dist2_negated(x, y, d, a);
    lemma_scaled_dist2_negated(x, y, d, b);
    lemma_scaled_dist2_negated(x, y, d, c);
}

/// Largest denominator that `score_from_ratio` takes.
pub const RATIO_DEN_LIMIT: u128 = 0x4000_0000_0000_0000_0000_0000;

/// Turns the squared distance `num / den` into a score, exactly as `score_value` states.
pub fn score_from_ratio(num: u128, den: u128) -> (r: u128)
    requires
        0 < den <= RATIO_DEN_LIMIT,
    ensures
        r as int == score_value(num as int, den as int),
        r <= SCORE_CAP,
{
    let q: u128 = num / den;
    let rem: u128 = num % den;
    proof {
        lemma_fundamental_div_mod(num as int, den as int);
        lemma_product_bound(SCORE_UNIT as int, rem as int, SCORE_UNIT as int, den as int);
    }
    let scaled_rem: u128 = SCORE_UNIT * rem;
    let q2: u128 = scaled_rem / den;
    proof {
        let x = SCORE_UNIT * num;
        let r2 = (scaled_rem as int) % (den as int);
        lemma_fundamental_div_mod(scaled_rem as int, den as int);
        assert(x == (SCORE_UNIT * q + q2) * den + r2) by (nonlinear_arith)
            requires
                x == SCORE_UNIT * num,
                num == den * q + rem,
                scaled_rem == SCORE_UNIT * rem,
                scaled_rem == den * q2 + r2,
        ;
        lemma_fundamental_div_mod_converse_div(x, den as int, SCORE_UNIT * q + q2, r2);
        assert(q2 < SCORE_UNIT) by (nonlinear_arith)
            requires
                scaled_rem == SCORE_UNIT * rem,
                scaled_rem == den * q2 + r2,
                0 <= r2,
                rem < den,
                0 < den,
        ;
    }
    if q >= 0x1_0000_0000_0000_0000 {
        assert(SCORE_UNIT * q + q2 >= SCORE_CAP) by (nonlinear_arith)
            requires
                q >= 0x1_0000_0000_0000_0000,
        ;
        SCORE_CAP
    } else {
        let v: u128 = SCORE_UNIT * q + q2;
        if v < SCORE_CAP {
            v
        } else {
            SCORE_CAP
        }
    }
}

/// Score of `p` against the segment `a b` (see `segment_score`).
pub fn segment_select_score(a: Point, b: Point, p: Point) -> (r: Option<u128>)
    requires
        a.wf(),
        b.wf(),
        p.wf(),
    ensures
        r is None <==> segment_score(a, b, p) is None,
        r matches Some(v) ==> segment_score(a, b, p) == Some(v as int),
{
    let abx: i64 = b.x - a.x;
    let aby: i64 = b.y - a.y;
    let apx: i64 = p.x - a.x;
    let apy: i64 = p.y - a.y;
    proof {
        lemma_product_bound(abx as int, abx as int, 0x4000, 0x4000);
        lemma_product_bound(aby as int, aby as int, 0x4000, 0x4000);
        lemma_product_bound(apx as int, abx as int, 0x4000, 0x4000);
        lemma_product_bound(apy as int, aby as int, 0x4000, 0x4000);
        lemma_product_bound(apx as int, aby as int, 0x4000, 0x4000);
        lemma_product_bound(apy as int, abx as int, 0x4000, 0x4000);
    }
    let len2: i64 = abx * abx + aby * aby;
    let dot: i64 = apx * abx + apy * aby;
    if len2 > 0 && 0 <= dot && dot <= len2 {
        let cr: i64 = apx * aby - apy * abx;
        proof {
            lemma_product_bound(cr as int, cr as int, 0x2000_0000, 0x2000_0000);
            assert(0 <= cr * cr) by (nonlinear_arith);
            assert(cr == cross(a, p, b));
        }
        let cr2: u128 = (cr as i128 * cr as i128) as u128;
        Some(score_from_ratio(cr2, len2 as u128))
    } else {
        None
    }
}

/// Score of `p` against the circle with the given center through `anchor` (see `circle_score`).
pub fn circle_select_score(center: &Center, anchor: Point, p: Point) -> (r: Option<u128>)
    requires
        center.wf(),
        anchor.wf(),
        p.wf(),
    ensures
        r is None <==> circle_score(center.view(), anchor, p) is None,
        r matches Some(v) ==> circle_score(center.view(), anchor, p) == Some(v as int),
{
    let radius = compute_circle_radius(center, &anchor);
    if radius.num == 0 {
        return None;
    }
    let px: i128 = p.x as i128;
    let py: i128 = p.y as i128;
    let ax: i128 = anchor.x as i128;
    let ay: i128 = anchor.y as i128;
    proof {
        lemma_product_bound(px as int, px as int, 0x2000, 0x2000);
        lemma_product_bound(py as int, py as int, 0x2000, 0x2000);
        lemma_product_bound(ax as int, ax as int, 0x2000, 0x2000);
        lemma_product_bound(ay as int, ay as int, 0x2000, 0x2000);
    }
    let norms: i128 = (px * px + py * py) - (ax * ax + ay * ay);
    proof {
        lemma_product_bound(center.den as int, norms as int, 0x4000_0000, 0x1000_0000);
        lemma_product_bound((px - ax) as int, center.x as int, 0x4000, 0x2000_0000_0000);
        lemma_product_bound((py - ay) as int, center.y as int, 0x4000, 0x2000_0000_0000);
    }
    let lin: i128 = (px - ax) * center.x as i128 + (py - ay) * center.y as i128;
    let t: i128 = center.den as i128 * norms - 2 * lin;
    proof {
        assert(t == circle_excess(center.view(), anchor, p));
        lemma_product_bound(t as int, t as int, 0x4000_0000_0000_0000, 0x4000_0000_0000_0000);
        assert(0 <= t * t) by (nonlinear_arith);
    }
    let t2: u128 = (t * t) as u128;
    Some(score_from_ratio(t2, radius.num))
}

/// A computed score agrees with the score that the spec gives, `None` standing for infinity.
pub open spec fn same_score(r: Option<u128>, s: Option<int>) -> bool {
    match r {
        None => s is None,
        Some(v) => s == Some(v as int),
    }
}

/// The selection threshold on scores is exact: a score is below `SELECT_SCORE_LIMIT` exactly
/// when the squared distance `num / den` it stands for is below 100, a distance of 10 units.
pub proof fn lemma_score_below_limit(num: int, den: int)
    requires
        0 <= num,
        0 < den,
    ensures
        score_value(num, den) < SELECT_SCORE_LIMIT <==> num < 100 * den,
{
    let x = SCORE_UNIT * num;
    lemma_fundamental_div_mod(x, den);
    let v = x / den;
    let r = x % den;
    if num < 100 * den {
        assert(x < SELECT_SCORE_LIMIT * den) by (nonlinear_arith)
            requires
                x == SCORE_UNIT * num,
                num < 100 * den,
        ;
        assert(v < SELECT_SCORE_LIMIT) by (nonlinear_arith)
            requires
                x == den * v + r,
                0 <= r,
                0 < den,
                x < SELECT_SCORE_LIMIT * den,
        ;
    } else {
        assert(x >= SELECT_SCORE_LIMIT * den) by (nonlinear_arith)
            requires
                x == SCORE_UNIT * num,
                num >= 100 * den,
        ;
        assert(v >= SELECT_SCORE_LIMIT) by (nonlinear_arith)
            requires
                x == den * v + r,
                r < den,
                0 < den,
                x >= SELECT_SCORE_LIMIT * den,
        ;
    }
}

} // verus!
