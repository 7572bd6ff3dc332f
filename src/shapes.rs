use vstd::prelude::*;

use crate::maths::{
    Center,
    Radius,
    circle_center,
    circle_radius,
    circle_score,
    circle_select_score,
    compute_circle_center,
    compute_circle_radius,
    same_score,
    segment_score,
    segment_select_score,
};
use crate::point::Point;

verus! {

/// What a shape's boundary looks like on the canvas.
#[derive(Clone, Copy, Debug, PartialEq, Eq, Structural)]
pub enum Outline {
    /// A straight segment between two points.
    Segment(Point, Point),
    /// A circle with this center and squared radius.
    Round(Center, Radius),
}

/// The geometry to render for one shape: its outline, the markers of its control points, the
/// marker of a circle's center, and whether it is drawn in the highlight color.
#[derive(Debug)]
pub struct Drawing {
    pub outline: Option<Outline>,
    pub markers: Vec<Point>,
    pub center: Option<Center>,
    pub highlighted: bool,
}

/// A line segment given by its two endpoints.
#[derive(Clone, Copy, Debug)]
pub struct Line {
    points: [Point; 2],
    selected: bool,
}

/// A circle given by three points on its boundary, with its center and radius derived from them.
#[derive(Clone, Copy, Debug)]
pub struct Circle {
    points: [Point; 3],
    center: Option<Center>,
    radius: Option<Radius>,
    selected: bool,
}

/// A shape on the canvas.
#[derive(Clone, Copy, Debug)]
pub enum Shape {
    Line(Line),
    Circle(Circle),
}

/// Every point of the sequence lies in the canvas range.
pub open spec fn all_wf(points: Seq<Point>) -> bool {
    forall|i: int| 0 <= i < points.len() ==> (#[trigger] points[i]).wf()
}

/// Score of `p` against the circle through the three points: `None` when they are collinear.
pub open spec fn circle_points_score(points: Seq<Point>, p: Point) -> Option<int> {
    match circle_center(points[0], points[1], points[2]) {
        None => None,
        Some(c) => circle_score(c, points[0], p),
    }
}

/// `d` draws the segment through `points` with their two markers.
pub open spec fn line_drawing(d: &Drawing, points: Seq<Point>, highlighted: bool) -> bool {
    &&& d.outline == Some(Outline::Segment(points[0], points[1]))
    &&& d.markers@ == points
    &&& d.center is None
    &&& d.highlighted == highlighted
}

/// `d` draws the circle through `points` with their three markers and its center marker; a
/// degenerate circle is drawn by its markers alone.
pub open spec fn circle_drawing(d: &Drawing, points: Seq<Point>, highlighted: bool) -> bool {
    &&& d.markers@ == points
    &&& d.highlighted == highlighted
    &&& match circle_center(points[0], points[1], points[2]) {
        None => d.outline is None && d.center is None,
        Some(cv) => match (d.outline, d.center) {
            (Some(Outline::Round(c, r)), Some(c2)) => c == c2 && c.wf() && c.view() == cv && (
            r.num as int,
            r.den as int,
            ) == circle_radius(cv, points[0]),
            _ => false,
        },
    }
}

/// A copy of the points, one marker each.
pub(crate) fn markers_of(points: &[Point]) -> (r: Vec<Point>)
    ensures
        r@ == points@,
{
    let mut v: Vec<Point> = Vec::new();
    let mut i: usize = 0;
    while i < points.len()
        invariant
            i <= points@.len(),
            v@ == points@.subrange(0, i as int),
        decreases points@.len() - i,
    {
        v.push(points[i]);
        i = i + 1;
        assert(v@ =~= points@.subrange(0, i as int));
    }
    assert(v@ =~= points@);
    v
}

impl Line {
    pub closed spec fn control_points(&self) -> Seq<Point> {
        self.points@
    }

    pub closed spec fn is_selected(&self) -> bool {
        self.selected
    }

    pub open spec fn wf(&self) -> bool {
        self.control_points().len() == 2 && all_wf(self.control_points())
    }

    pub fn new(points: [Point; 2]) -> (r: Line)
        requires
            all_wf(points@),
        ensures
            r.wf(),
            r.control_points() == points@,
            !r.is_selected(),
    {
        Line { points, selected: false }
    }

    pub fn selected(&self) -> (r: bool)
        ensures
            r == self.is_selected(),
    {
        self.selected
    }

    pub fn select(&mut self)
        ensures
            final(self).control_points() == old(self).control_points(),
            final(self).is_selected(),
    {
        self.selected = true;
    }

    pub fn unselect(&mut self)
        ensures
            final(self).control_points() == old(self).control_points(),
            !final(self).is_selected(),
    {
        self.selected = false;
    }

    pub fn as_slice(&self) -> (r: &[Point])
        ensures
            r@ == self.control_points(),
    {
        self.points.as_slice()
    }

    /// Moves the endpoint at `index` to `point`.
    pub fn replace(&mut self, index: usize, point: Point)
        requires
            old(self).wf(),
            index < 2,
            point.wf(),
        ensures
            final(self).wf(),
            final(self).control_points() == old(self).control_points().update(index as int, point),
            final(self).is_selected() == old(self).is_selected(),
    {
        self.points[index] = point;
    }

    /// The score of `point` against this segment; `None` when its projection falls outside.
    pub fn select_from_point(&self, point: Point) -> (r: Option<u128>)
        requires
            self.wf(),
            point.wf(),
        ensures
            same_score(r, segment_score(self.control_points()[0], self.control_points()[1], point)),
    {
        segment_select_score(self.points[0], self.points[1], point)
    }

    /// The segment and its two endpoint markers.
    pub fn draw(&self) -> (r: Drawing)
        requires
            self.wf(),
        ensures
            line_drawing(&r, self.control_points(), self.is_selected()),
    {
        Drawing {
            outline: Some(Outline::Segment(self.points[0], self.points[1])),
            markers: markers_of(self.points.as_slice()),
            center: None,
            highlighted: self.selected,
        }
    }
}

impl Circle {
    pub closed spec fn control_points(&self) -> Seq<Point> {
        self.points@
    }

    pub closed spec fn is_selected(&self) -> bool {
        self.selected
    }

    pub closed spec fn stored_center(&self) -> Option<Center> {
        self.center
    }

    pub closed spec fn stored_radius(&self) -> Option<Radius> {
        self.radius
    }

    /// The stored center and radius are those of the current control points.
    pub open spec fn geometry_consistent(&self) -> bool {
        let p = self.control_points();
        match circle_center(p[0], p[1], p[2]) {
            None => self.stored_center() is None && self.stored_radius() is None,
            Some(cv) => match (self.stored_center(), self.stored_radius()) {
                (Some(c), Some(r)) => c.wf() && c.view() == cv && (r.num as int, r.den as int)
                    == circle_radius(cv, p[0]),
                _ => false,
            },
        }
    }

    pub open spec fn wf(&self) -> bool {
        self.control_points().len() == 3 && all_wf(self.control_points())
            && self.geometry_consistent()
    }

    fn derive(points: &[Point; 3]) -> (r: (Option<Center>, Option<Radius>))
        requires
            all_wf(points@),
        ensures
            (Circle { points: *points, center: r.0, radius: r.1, selected: false }).wf(),
    {
        match compute_circle_center(points) {
            None => (None, None),
            Some(center) => {
                let radius = compute_circle_radius(&center, &points[0]);
                (Some(center), Some(radius))
            },
        }
    }

    pub fn new(points: [Point; 3]) -> (r: Circle)
        requires
            all_wf(points@),
        ensures
            r.wf(),
            r.control_points() == points@,
            !r.is_selected(),
    {
        let (center, radius) = Circle::derive(&points);
        Circle { points, center, radius, selected: false }
    }

    pub fn selected(&self) -> (r: bool)
        ensures
            r == self.is_selected(),
    {
        self.selected
    }

    /// The center, or `None` when the control points are collinear.
    pub fn center(&self) -> (r: Option<Center>)
        ensures
            r == self.stored_center(),
    {
        self.center
    }

    /// The squared radius, or `None` when the control points are collinear.
    pub fn radius(&self) -> (r: Option<Radius>)
        ensures
            r == self.stored_radius(),
    {
        self.radius
    }

    pub fn select(&mut self)
        ensures
            final(self).control_points() == old(self).control_points(),
            final(self).stored_center() == old(self).stored_center(),
            final(self).stored_radius() == old(self).stored_radius(),
            final(self).is_selected(),
    {
        self.selected = true;
    }

    pub fn unselect(&mut self)
        ensures
            final(self).control_points() == old(self).control_points(),
            final(self).stored_center() == old(self).stored_center(),
            final(self).stored_radius() == old(self).stored_radius(),
            !final(self).is_selected(),
    {
        self.selected = false;
    }

    pub fn as_slice(&self) -> (r: &[Point])
        ensures
            r@ == self.control_points(),
    {
        self.points.as_slice()
    }

    /// Moves the control point at `index` to `point` and derives the center and radius anew.
    pub fn replace(&mut self, index: usize, point: Point)
        requires
            old(self).wf(),
            index < 3,
            point.wf(),
        ensures
            final(self).wf(),
            final(self).control_points() == old(self).control_points().update(index as int, point),
            final(self).is_selected() == old(self).is_selected(),
    {
        self.points[index] = point;
        let (center, radius) = Circle::derive(&self.points);
        self.center = center;
        self.radius = radius;
    }

    /// The score of `point` against the circle's boundary; `None` for a degenerate circle.
    pub fn select_from_point(&self, point: Point) -> (r: Option<u128>)
        requires
            self.wf(),
            point.wf(),
        ensures
            same_score(r, circle_points_score(self.control_points(), point)),
    {
        match self.center {
            None => None,
            Some(center) => circle_select_score(&center, self.points[0], point),
        }
    }

    /// The circle (when its points are not collinear), its three point markers and its center.
    pub fn draw(&self) -> (r: Drawing)
        requires
            self.wf(),
        ensures
            circle_drawing(&r, self.control_points(), self.is_selected()),
    {
        let outline = match (self.center, self.radius) {
            (Some(c), Some(rad)) => Some(Outline::Round(c, rad)),
            _ => None,
        };
        Drawing {
            outline,
            markers: markers_of(self.points.as_slice()),
            center: self.center,
            highlighted: self.selected,
        }
    }
}

/// The center and radius a circle stores depend on its control points alone: a circle whose
/// points were moved one by one holds the same geometry as one built from those points.
pub proof fn lemma_circle_geometry_determined(moved: Circle, built: Circle)
    requires
        moved.wf(),
        built.wf(),
        moved.control_points() == built.control_points(),
    ensures
        moved.stored_center() == built.stored_center(),
        moved.stored_radius() == built.stored_radius(),
{
}

impl Shape {
    pub open spec fn wf(&self) -> bool {
        match self {
            Shape::Line(l) => l.wf(),
            Shape::Circle(c) => c.wf(),
        }
    }

    pub open spec fn control_points(&self) -> Seq<Point> {
        match self {
            Shape::Line(l) => l.control_points(),
            Shape::Circle(c) => c.control_points(),
        }
    }

    pub open spec fn is_selected(&self) -> bool {
        match self {
            Shape::Line(l) => l.is_selected(),
            Shape::Circle(c) => c.is_selected(),
        }
    }

    /// Both are the same kind of shape with the same control points.
    pub open spec fn same_geometry(&self, other: &Shape) -> bool {
        match (self, other) {
            (Shape::Line(a), Shape::Line(b)) => a.control_points() == b.control_points(),
            (Shape::Circle(a), Shape::Circle(b)) => a.control_points() == b.control_points(),
            _ => false,
        }
    }

    /// The score of `p` against this shape; `None` stands for infinitely far.
    pub open spec fn score(&self, p: Point) -> Option<int> {
        match self {
            Shape::Line(l) => segment_score(l.control_points()[0], l.control_points()[1], p),
            Shape::Circle(c) => circle_points_score(c.control_points(), p),
        }
    }

    /// `d` is how this shape is rendered.
    pub open spec fn drawn_as(&self, d: &Drawing) -> bool {
        match self {
            Shape::Line(l) => line_drawing(d, l.control_points(), l.is_selected()),
            Shape::Circle(c) => circle_drawing(d, c.control_points(), c.is_selected()),
        }
    }

    pub fn selected(&self) -> (r: bool)
        ensures
            r == self.is_selected(),
    {
        match self {
            Shape::Line(l) => l.selected(),
            Shape::Circle(c) => c.selected(),
        }
    }

    pub fn select(&mut self)
        requires
            old(self).wf(),
        ensures
            final(self).wf(),
            final(self).same_geometry(old(self)),
            final(self).is_selected(),
    {
        match self {
            Shape::Line(l) => l.select(),
            Shape::Circle(c) => c.select(),
        }
    }

    pub fn unselect(&mut self)
        requires
            old(self).wf(),
        ensures
            final(self).wf(),
            final(self).same_geometry(old(self)),
            !final(self).is_selected(),
    {
        match self {
            Shape::Line(l) => l.unselect(),
            Shape::Circle(c) => c.unselect(),
        }
    }

    pub fn as_slice(&self) -> (r: &[Point])
        ensures
            r@ == self.control_points(),
    {
        match self {
            Shape::Line(l) => l.as_slice(),
            Shape::Circle(c) => c.as_slice(),
        }
    }

    /// Moves the control point at `index` to `point`.
    pub fn replace(&mut self, index: usize, point: Point)
        requires
            old(self).wf(),
            index < old(self).control_points().len(),
            point.wf(),
        ensures
            final(self).wf(),
            (*old(self) is Line) == (*final(self) is Line),
            final(self).control_points() == old(self).control_points().update(index as int, point),
            final(self).is_selected() == old(self).is_selected(),
    {
        match self {
            Shape::Line(l) => l.replace(index, point),
            Shape::Circle(c) => c.replace(index, point),
        }
    }

    pub fn select_from_point(&self, point: Point) -> (r: Option<u128>)
        requires
            self.wf(),
            point.wf(),
        ensures
            same_score(r, self.score(point)),
    {
        match self {
            Shape::Line(l) => l.select_from_point(point),
            Shape::Circle(c) => c.select_from_point(point),
        }
    }

    pub fn draw(&self) -> (r: Drawing)
        requires
            self.wf(),
        ensures
            self.drawn_as(&r),
    {
        match self {
            Shape::Line(l) => l.draw(),
            Shape::Circle(c) => c.draw(),
        }
    }
}

} // verus!
