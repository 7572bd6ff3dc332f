use vstd::prelude::*;

use crate::point::Point;
use crate::shapes::{
    Circle,
    Drawing,
    Line,
    Shape,
    all_wf,
    circle_drawing,
    line_drawing,
    markers_of,
};

verus! {

/// The kind of shape a `Builder` is collecting points for.
#[derive(Clone, Copy, Debug, PartialEq, Eq, Structural)]
pub enum ShapeBuilder {
    Line,
    Circle,
}

impl ShapeBuilder {
    /// How many points complete a shape of this kind.
    pub open spec fn required(self) -> nat {
        match self {
            ShapeBuilder::Line => 2,
            ShapeBuilder::Circle => 3,
        }
    }

    /// `s` is a new, unselected shape of this kind made of the first points of `points`.
    pub open spec fn built_from(self, s: Shape, points: Seq<Point>) -> bool {
        &&& s.wf()
        &&& !s.is_selected()
        &&& (s is Line) == (self == ShapeBuilder::Line)
        &&& s.control_points() == points.subrange(0, self.required() as int)
    }

    /// `d` previews the shape that `points` followed by the pointer at `current` would make.
    pub open spec fn previewed(self, d: Option<Drawing>, points: Seq<Point>, current: Point) -> bool {
        if points.len() == 0 {
            d is None
        } else {
            match self {
                ShapeBuilder::Line => d matches Some(dr) && line_drawing(
                    &dr,
                    seq![points[0], current],
                    false,
                ),
                ShapeBuilder::Circle => if points.len() == 1 {
                    d matches Some(dr) && dr.outline is None && dr.center is None
                        && dr.markers@ == seq![points[0]] && !dr.highlighted
                } else {
                    d matches Some(dr) && circle_drawing(
                        &dr,
                        seq![points[0], points[1], current],
                        false,
                    )
                },
            }
        }
    }

    pub fn required_points(&self) -> (r: usize)
        ensures
            r == self.required(),
    {
        match self {
            ShapeBuilder::Line => 2,
            ShapeBuilder::Circle => 3,
        }
    }

    /// Makes a shape from the pending points once there are enough of them.
    pub fn build(&self, points: &Vec<Point>) -> (r: Option<Shape>)
        requires
            all_wf(points@),
        ensures
            r is Some <==> points@.len() >= self.required(),
            r matches Some(s) ==> self.built_from(s, points@),
    {
        match self {
            ShapeBuilder::Line => {
                if points.len() < 2 {
                    return None;
                }
                let line = Line::new([points[0], points[1]]);
                assert(line.control_points() =~= points@.subrange(0, 2));
                Some(Shape::Line(line))
            },
            ShapeBuilder::Circle => {
                if points.len() < 3 {
                    return None;
                }
                let circle = Circle::new([points[0], points[1], points[2]]);
                assert(circle.control_points() =~= points@.subrange(0, 3));
                Some(Shape::Circle(circle))
            },
        }
    }

    /// What to render while the shape is under construction and the pointer is at
    /// `current_point`: the shape it would complete, or the lone first point of a circle.
    pub fn draw(&self, points: &Vec<Point>, current_point: Point) -> (r: Option<Drawing>)
        requires
            all_wf(points@),
            current_point.wf(),
        ensures
            self.previewed(r, points@, current_point),
    {
        if points.len() == 0 {
            return None;
        }
        match self {
            ShapeBuilder::Line => {
                let line = Line::new([points[0], current_point]);
                assert(line.control_points() =~= seq![points@[0], current_point]);
                Some(line.draw())
            },
            ShapeBuilder::Circle => {
                if points.len() > 1 {
                    let circle = Circle::new([points[0], points[1], current_point]);
                    assert(circle.control_points() =~= seq![points@[0], points@[1], current_point]);
                    Some(circle.draw())
                } else {
                    let lone = [points[0]];
                    let markers = markers_of(lone.as_slice());
                    assert(markers@ =~= seq![points@[0]]);
                    Some(Drawing { outline: None, markers, center: None, highlighted: false })
                }
            },
        }
    }
}

/// Collects the points of a shape under construction, up to the number its kind needs.
#[derive(Debug)]
pub struct Builder {
    points: Vec<Point>,
}

impl Builder {
    /// The points collected so far, in order.
    pub closed spec fn pending(&self) -> Seq<Point> {
        self.points@
    }

    pub open spec fn wf(&self) -> bool {
        self.pending().len() <= 3 && all_wf(self.pending())
    }

    pub fn new() -> (r: Builder)
        ensures
            r.wf(),
            r.pending() == Seq::<Point>::empty(),
    {
        Builder { points: Vec::new() }
    }

    /// Drops every collected point.
    pub fn reset(&mut self)
        ensures
            final(self).wf(),
            final(self).pending() == Seq::<Point>::empty(),
    {
        self.points.clear();
    }

    /// The collected points.
    pub fn points(&self) -> (r: &Vec<Point>)
        ensures
            r@ == self.pending(),
    {
        &self.points
    }

    /// Adds `point` while fewer points than `shape` needs are collected; ignores it otherwise.
    pub fn set_next_point(&mut self, point: Point, shape: ShapeBuilder)
        requires
            old(self).wf(),
            point.wf(),
        ensures
            final(self).wf(),
            final(self).pending() == if old(self).pending().len() < shape.required() {
                old(self).pending().push(point)
            } else {
                old(self).pending()
            },
    {
        if self.points.len() < shape.required_points() {
            self.points.push(point);
        }
    }

    /// The preview of the shape under construction with the pointer at `current_point`.
    pub fn draw(&self, current_point: Point, shape: ShapeBuilder) -> (r: Option<Drawing>)
        requires
            self.wf(),
            current_point.wf(),
        ensures
            shape.previewed(r, self.pending(), current_point),
    {
        shape.draw(&self.points, current_point)
    }

    /// The finished shape once enough points are collected.
    pub fn build(&self, shape: ShapeBuilder) -> (r: Option<Shape>)
        requires
            self.wf(),
        ensures
            r is Some <==> self.pending().len() >= shape.required(),
            r matches Some(s) ==> shape.built_from(s, self.pending()),
    {
        shape.build(&self.points)
    }
}

/// A line builder holding one point builds nothing; given a second point it builds the line
/// through both points, in the order they came.
pub proof fn lemma_line_builder_completion(p: Point, q: Point)
    ensures
        Seq::<Point>::empty().push(p).len() < ShapeBuilder::Line.required(),
        Seq::<Point>::empty().push(p).push(q).len() >= ShapeBuilder::Line.required(),
        forall|s: Shape|
            ShapeBuilder::Line.built_from(s, Seq::<Point>::empty().push(p).push(q)) ==> (s is Line
                && s.control_points() == seq![p, q]),
{
    assert(Seq::<Point>::empty().push(p).push(q).subrange(0, 2) =~= seq![p, q]);
}

} // verus!
