use vstd::prelude::*;

use crate::builders::{Builder, ShapeBuilder};
use crate::maths::{SELECT_DISTANCE_SQUARED, SELECT_SCORE_LIMIT, same_score};
use crate::point::{Point, dist2, distance_squared};
use crate::shapes::{Drawing, Shape};

verus! {

/// What pointer input on the canvas does.
#[derive(Clone, Copy, Debug, PartialEq, Eq, Structural)]
pub enum Mode {
    /// The canvas is panned; no shape can be edited.
    Drag,
    /// Shapes are picked, their points dragged, and the picked shape deleted.
    Selection,
    /// Clicks collect the endpoints of a new line.
    Line,
    /// Clicks collect three boundary points of a new circle.
    Circle,
}

/// The input of one frame: the pointer position in canvas space (`None` when the pointer is
/// not over the canvas), a completed primary click, the primary button held, and a delete key.
#[derive(Clone, Copy, Debug, PartialEq, Eq, Structural)]
pub struct PointerInput {
    pub position: Option<Point>,
    pub primary_clicked: bool,
    pub primary_down: bool,
    pub delete_pressed: bool,
}

impl PointerInput {
    pub open spec fn wf(&self) -> bool {
        self.position matches Some(p) ==> p.wf()
    }
}

/// The mode in which a builder of this kind collects points.
pub open spec fn building_mode(shape: ShapeBuilder) -> Mode {
    match shape {
        ShapeBuilder::Line => Mode::Line,
        ShapeBuilder::Circle => Mode::Circle,
    }
}

/// How many points may wait in the builder between frames: fewer than the shape of the mode
/// needs, and none outside the building modes.
pub open spec fn pending_limit(mode: Mode) -> nat {
    match mode {
        Mode::Line => ShapeBuilder::Line.required(),
        Mode::Circle => ShapeBuilder::Circle.required(),
        _ => 1,
    }
}

/// `a` is strictly better than `b`, `None` standing for an infinite score.
pub open spec fn score_below(a: Option<int>, b: Option<int>) -> bool {
    match (a, b) {
        (Some(x), Some(y)) => x < y,
        (Some(_), None) => true,
        _ => false,
    }
}

/// Shape `i` has the first minimal score against `p`, and it is close enough to be picked.
pub open spec fn is_hit_target(shapes: Seq<Shape>, p: Point, i: int) -> bool {
    &&& 0 <= i < shapes.len()
    &&& shapes[i].score(p) matches Some(s) && s < SELECT_SCORE_LIMIT
    &&& forall|j: int|
        0 <= j < i ==> score_below(shapes[i].score(p), #[trigger] shapes[j].score(p))
    &&& forall|j: int|
        i < j < shapes.len() ==> !score_below(#[trigger] shapes[j].score(p), shapes[i].score(p))
}

/// The shape that a click at `p` picks, if any.
pub open spec fn hit_target(shapes: Seq<Shape>, p: Point) -> Option<int> {
    if exists|i: int| is_hit_target(shapes, p, i) {
        Some(choose|i: int| is_hit_target(shapes, p, i))
    } else {
        None
    }
}

/// Control point `j` is the first one nearest to `p`, and it lies within 10 units of it.
pub open spec fn is_grab_target(points: Seq<Point>, p: Point, j: int) -> bool {
    &&& 0 <= j < points.len()
    &&& dist2(points[j], p) < SELECT_DISTANCE_SQUARED
    &&& forall|k: int| 0 <= k < j ==> dist2(#[trigger] points[k], p) > dist2(points[j], p)
    &&& forall|k: int| j < k < points.len() ==> dist2(#[trigger] points[k], p) >= dist2(points[j], p)
}

/// The control point that pressing the button at `p` grabs, if any.
pub open spec fn grab_target(points: Seq<Point>, p: Point) -> Option<int> {
    if exists|j: int| is_grab_target(points, p, j) {
        Some(choose|j: int| is_grab_target(points, p, j))
    } else {
        None
    }
}

/// Both sequences hold the same shapes, selection flags aside.
pub open spec fn same_geometry_all(a: Seq<Shape>, b: Seq<Shape>) -> bool {
    &&& a.len() == b.len()
    &&& forall|i: int| 0 <= i < a.len() ==> (#[trigger] b[i]).same_geometry(&a[i])
}

proof fn lemma_hit_target_unique(shapes: Seq<Shape>, p: Point, i: int, k: int)
    requires
        is_hit_target(shapes, p, i),
        is_hit_target(shapes, p, k),
    ensures
        i == k,
{
    if i < k {
        assert(score_below(shapes[k].score(p), shapes[i].score(p)));
    } else if k < i {
        assert(score_below(shapes[i].score(p), shapes[k].score(p)));
    }
}

proof fn lemma_grab_target_unique(points: Seq<Point>, p: Point, j: int, k: int)
    requires
        is_grab_target(points, p, j),
        is_grab_target(points, p, k),
    ensures
        j == k,
{
    if j < k {
        assert(dist2(points[j], p) > dist2(points[k], p));
    } else if k < j {
        assert(dist2(points[k], p) > dist2(points[j], p));
    }
}

/// The first shape with the smallest finite score against `p`, with that score.
fn first_minimum(shapes: &Vec<Shape>, p: Point) -> (r: Option<(usize, u128)>)
    requires
        forall|i: int| 0 <= i < shapes@.len() ==> (#[trigger] shapes@[i]).wf(),
        p.wf(),
    ensures
        r is None ==> forall|j: int| 0 <= j < shapes@.len() ==> (#[trigger] shapes@[j].score(p)) is None,
        r matches Some((b, s)) ==> {
            &&& b < shapes@.len()
            &&& shapes@[b as int].score(p) == Some(s as int)
            &&& forall|j: int|
                0 <= j < b ==> score_below(Some(s as int), #[trigger] shapes@[j].score(p))
            &&& forall|j: int|
                b < j < shapes@.len() ==> !score_below(#[trigger] shapes@[j].score(p), Some(s as int))
        },
{
    let mut best: Option<(usize, u128)> = None;
    let mut i: usize = 0;
    while i < shapes.len()
        invariant
            forall|k: int| 0 <= k < shapes@.len() ==> (#[trigger] shapes@[k]).wf(),
            p.wf(),
            i <= shapes@.len(),
            best is None ==> forall|j: int| 0 <= j < i ==> (#[trigger] shapes@[j].score(p)) is None,
            best matches Some((b, s)) ==> {
                &&& b < i
                &&& shapes@[b as int].score(p) == Some(s as int)
                &&& forall|j: int|
                    0 <= j < b ==> score_below(Some(s as int), #[trigger] shapes@[j].score(p))
                &&& forall|j: int|
                    b < j < i ==> !score_below(#[trigger] shapes@[j].score(p), Some(s as int))
            },
        decreases shapes@.len() - i,
    {
        let score = shapes[i].select_from_point(p);
        match score {
            None => {},
            Some(s) => {
                match best {
                    None => {
                        best = Some((i, s));
                    },
                    Some((_, bs)) => {
                        if s < bs {
                            best = Some((i, s));
                        }
                    },
                }
            },
        }
        i = i + 1;
    }
    best
}

/// The first control point nearest to `p`, with its squared distance.
fn nearest_point(points: &[Point], p: Point) -> (r: Option<(usize, u64)>)
    requires
        forall|i: int| 0 <= i < points@.len() ==> (#[trigger] points@[i]).wf(),
        p.wf(),
    ensures
        r is None <==> points@.len() == 0,
        r matches Some((b, d)) ==> {
            &&& b < points@.len()
            &&& dist2(points@[b as int], p) == d
            &&& forall|k: int| 0 <= k < b ==> dist2(#[trigger] points@[k], p) > d
            &&& forall|k: int| b < k < points@.len() ==> dist2(#[trigger] points@[k], p) >= d
        },
{
    let mut best: Option<(usize, u64)> = None;
    let mut i: usize = 0;
    while i < points.len()
        invariant
            forall|k: int| 0 <= k < points@.len() ==> (#[trigger] points@[k]).wf(),
            p.wf(),
            i <= points@.len(),
            best is None <==> i == 0,
            best matches Some((b, d)) ==> {
                &&& b < i
                &&& dist2(points@[b as int], p) == d
                &&& forall|k: int| 0 <= k < b ==> dist2(#[trigger] points@[k], p) > d
                &&& forall|k: int| b < k < i ==> dist2(#[trigger] points@[k], p) >= d
            },
        decreases points@.len() - i,
    {
        let d = distance_squared(points[i], p);
        match best {
            None => {
                best = Some((i, d));
            },
            Some((_, bd)) => {
                if d < bd {
                    best = Some((i, d));
                }
            },
        }
        i = i + 1;
    }
    best
}

/// The editing state behind the canvas: the mode, the shape under construction, the shapes
/// drawn so far, and the selected shape and, while it is dragged, its selected control point.
#[derive(Debug)]
pub struct BlueKompassApp {
    mode: Mode,
    builder: Builder,
    shapes: Vec<Shape>,
    selected_shape_index: Option<usize>,
    selected_point_index: Option<usize>,
}

impl BlueKompassApp {
    pub closed spec fn current_mode(&self) -> Mode {
        self.mode
    }

    /// The points of the shape under construction.
    pub closed spec fn pending(&self) -> Seq<Point> {
        self.builder.pending()
    }

    pub closed spec fn shape_list(&self) -> Seq<Shape> {
        self.shapes@
    }

    pub closed spec fn selected_shape(&self) -> Option<int> {
        match self.selected_shape_index {
            Some(i) => Some(i as int),
            None => None,
        }
    }

    pub closed spec fn selected_point(&self) -> Option<int> {
        match self.selected_point_index {
            Some(i) => Some(i as int),
            None => None,
        }
    }

    pub closed spec fn builder_wf(&self) -> bool {
        self.builder.wf()
    }

    /// The builder holds fewer points than the mode's shape needs; shapes are well formed; the
    /// selection names an existing shape and, when a point is selected too, one of that shape's
    /// control points; exactly the selected shape is flagged.
    pub open spec fn wf(&self) -> bool {
        &&& self.builder_wf()
        &&& self.pending().len() < pending_limit(self.current_mode())
        &&& forall|i: int| 0 <= i < self.shape_list().len() ==> (#[trigger] self.shape_list()[i]).wf()
        &&& self.selected_shape() matches Some(i) ==> 0 <= i < self.shape_list().len()
        &&& self.selected_point() matches Some(j) ==> self.selected_shape() matches Some(i) && 0
            <= j < self.shape_list()[i].control_points().len()
        &&& forall|i: int|
            0 <= i < self.shape_list().len() ==> ((#[trigger] self.shape_list()[i]).is_selected()
                <==> self.selected_shape() == Some(i))
    }

    /// Mode, pending points and shapes are those of `old`, selection flags aside.
    pub open spec fn keeps_shapes(&self, old: &Self) -> bool {
        &&& self.current_mode() == old.current_mode()
        &&& self.pending() == old.pending()
        &&& same_geometry_all(old.shape_list(), self.shape_list())
    }

    /// Nothing is selected any more; all else is as in `old`.
    pub open spec fn unselected_from(&self, old: &Self) -> bool {
        &&& self.keeps_shapes(old)
        &&& self.selected_shape() is None
        &&& self.selected_point() is None
    }

    /// A click at `p`: the shape it hits is selected, or nothing when it hits none.
    pub open spec fn clicked_from(&self, old: &Self, p: Point) -> bool {
        &&& self.keeps_shapes(old)
        &&& self.selected_shape() == hit_target(old.shape_list(), p)
        &&& self.selected_point() is None
    }

    /// The selected shape was removed, and the selection with it.
    pub open spec fn removed_from(&self, old: &Self) -> bool {
        &&& old.selected_shape() matches Some(i) && self.shape_list() == old.shape_list().remove(i)
        &&& self.current_mode() == old.current_mode()
        &&& self.pending() == old.pending()
        &&& self.selected_shape() is None
        &&& self.selected_point() is None
    }

    /// The selected shape, held at `p`: its grabbed control point (the one already held, else
    /// the nearest within reach of `p`) moves to `p`.
    pub open spec fn dragged_from(&self, old: &Self, p: Point) -> bool {
        old.selected_shape() matches Some(i) && {
            let grabbed = if old.selected_point() is Some {
                old.selected_point()
            } else {
                grab_target(old.shape_list()[i].control_points(), p)
            };
            &&& self.current_mode() == old.current_mode()
            &&& self.pending() == old.pending()
            &&& self.selected_shape() == old.selected_shape()
            &&& self.selected_point() == grabbed
            &&& self.shape_list().len() == old.shape_list().len()
            &&& forall|k: int|
                0 <= k < old.shape_list().len() && k != i ==> (#[trigger] self.shape_list()[k])
                    == old.shape_list()[k]
            &&& self.shape_list()[i].is_selected()
            &&& match grabbed {
                None => self.shape_list()[i] == old.shape_list()[i],
                Some(j) => {
                    &&& (self.shape_list()[i] is Line) == (old.shape_list()[i] is Line)
                    &&& self.shape_list()[i].control_points() == old.shape_list()[
                        i
                    ].control_points().update(j, p)
                },
            }
        }
    }

    /// The button is up: the grabbed point is let go, the shape stays selected.
    pub open spec fn released_from(&self, old: &Self) -> bool {
        &&& self.current_mode() == old.current_mode()
        &&& self.pending() == old.pending()
        &&& self.shape_list() == old.shape_list()
        &&& self.selected_shape() == old.selected_shape()
        &&& self.selected_point() is None
    }

    /// Nothing at all changed.
    pub open spec fn unchanged_from(&self, old: &Self) -> bool {
        &&& self.current_mode() == old.current_mode()
        &&& self.pending() == old.pending()
        &&& self.shape_list() == old.shape_list()
        &&& self.selected_shape() == old.selected_shape()
        &&& self.selected_point() == old.selected_point()
    }

    /// One frame of selection mode, checks in priority order: delete the selected shape; drag
    /// its control point; let go of a point when the button is up; pick a shape by click.
    pub open spec fn selection_step(&self, old: &Self, input: PointerInput) -> bool {
        if input.delete_pressed && old.selected_shape() is Some {
            self.removed_from(old)
        } else if old.selected_shape() is Some && input.primary_down && input.position is Some {
            self.dragged_from(old, input.position->Some_0)
        } else if input.primary_clicked && input.position is Some {
            self.clicked_from(old, input.position->Some_0)
        } else if old.selected_shape() is Some && !input.primary_down {
            self.released_from(old)
        } else {
            self.unchanged_from(old)
        }
    }

    /// One frame of line or circle mode: the selection is cleared; a click on the canvas adds a
    /// point and, once the shape has all its points, appends it and starts anew; otherwise the
    /// shape under construction is previewed up to the pointer.
    pub open spec fn building_step(
        &self,
        old: &Self,
        input: PointerInput,
        shape: ShapeBuilder,
        preview: Option<Drawing>,
    ) -> bool {
        &&& self.current_mode() == old.current_mode()
        &&& self.selected_shape() is None
        &&& self.selected_point() is None
        &&& if input.primary_clicked && input.position is Some {
            let p = input.position->Some_0;
            let collected = if old.pending().len() < shape.required() {
                old.pending().push(p)
            } else {
                old.pending()
            };
            &&& preview is None
            &&& if collected.len() >= shape.required() {
                &&& self.pending() == Seq::<Point>::empty()
                &&& self.shape_list().len() == old.shape_list().len() + 1
                &&& same_geometry_all(old.shape_list(), self.shape_list().drop_last())
                &&& shape.built_from(self.shape_list().last(), collected)
            } else {
                &&& self.pending() == collected
                &&& same_geometry_all(old.shape_list(), self.shape_list())
            }
        } else {
            &&& self.pending() == old.pending()
            &&& same_geometry_all(old.shape_list(), self.shape_list())
            &&& match input.position {
                Some(p) => shape.previewed(preview, old.pending(), p),
                None => preview is None,
            }
        }
    }

    /// An empty canvas in drag mode.
    pub fn new() -> (r: BlueKompassApp)
        ensures
            r.wf(),
            r.current_mode() == Mode::Drag,
            r.pending() == Seq::<Point>::empty(),
            r.shape_list() == Seq::<Shape>::empty(),
            r.selected_shape() is None,
            r.selected_point() is None,
    {
        BlueKompassApp {
            mode: Mode::Drag,
            builder: Builder::new(),
            shapes: Vec::new(),
            selected_shape_index: None,
            selected_point_index: None,
        }
    }

    pub fn mode(&self) -> (r: Mode)
        ensures
            r == self.current_mode(),
    {
        self.mode
    }

    pub fn shapes(&self) -> (r: &Vec<Shape>)
        ensures
            r@ == self.shape_list(),
    {
        &self.shapes
    }

    pub fn builder(&self) -> (r: &Builder)
        ensures
            r.pending() == self.pending(),
    {
        &self.builder
    }

    pub fn selected_shape_index(&self) -> (r: Option<usize>)
        ensures
            match r {
                Some(i) => self.selected_shape() == Some(i as int),
                None => self.selected_shape() is None,
            },
    {
        self.selected_shape_index
    }

    pub fn selected_point_index(&self) -> (r: Option<usize>)
        ensures
            match r {
                Some(i) => self.selected_point() == Some(i as int),
                None => self.selected_point() is None,
            },
    {
        self.selected_point_index
    }

    /// Switches mode; the shape under construction is dropped.
    pub fn set_mode(&mut self, mode: Mode)
        requires
            old(self).wf(),
        ensures
            final(self).wf(),
            final(self).current_mode() == mode,
            final(self).pending() == Seq::<Point>::empty(),
            final(self).shape_list() == old(self).shape_list(),
            final(self).selected_shape() == old(self).selected_shape(),
            final(self).selected_point() == old(self).selected_point(),
    {
        self.mode = mode;
        self.builder.reset();
        assert(self.shape_list() == old(self).shape_list());
    }

    fn select_shape(&mut self, selection_index: usize)
        requires
            old(self).wf(),
            old(self).selected_shape() is None,
            selection_index < old(self).shape_list().len(),
        ensures
            final(self).wf(),
            final(self).keeps_shapes(old(self)),
            final(self).selected_shape() == Some(selection_index as int),
            final(self).selected_point() is None,
    {
        self.shapes[selection_index].select();
        self.selected_shape_index = Some(selection_index);
    }

    /// Clears the selection of shape and point.
    pub fn unselect_shape(&mut self)
        requires
            old(self).wf(),
        ensures
            final(self).wf(),
            final(self).unselected_from(old(self)),
    {
        if let Some(selection_index) = self.selected_shape_index {
            self.shapes[selection_index].unselect();
            self.selected_shape_index = None;
        }
        self.selected_point_index = None;
    }

    /// Picks the shape that a click at `pos` hits, or clears the selection when it hits none.
    fn select_next_shape(&mut self, pos: Point)
        requires
            old(self).wf(),
            pos.wf(),
        ensures
            final(self).wf(),
            final(self).clicked_from(old(self), pos),
    {
        let ghost shapes0 = self.shapes@;
        let best = first_minimum(&self.shapes, pos);
        match best {
            Some((index, score)) if score < SELECT_SCORE_LIMIT => {
                assert(is_hit_target(shapes0, pos, index as int));
                proof {
                    assert forall|k: int| is_hit_target(shapes0, pos, k) implies k
                        == index as int by {
                        lemma_hit_target_unique(shapes0, pos, k, index as int);
                    }
                }
                self.unselect_shape();
                self.select_shape(index);
            },
            _ => {
                assert forall|k: int| !is_hit_target(shapes0, pos, k) by {
                    if is_hit_target(shapes0, pos, k) {
                        match best {
                            None => {
                                assert(shapes0[k].score(pos) is None);
                            },
                            Some((b, s)) => {
                                if k < b {
                                    assert(score_below(Some(s as int), shapes0[k].score(pos)));
                                } else if k > b {
                                    assert(score_below(shapes0[k].score(pos), shapes0[b as int].score(pos)));
                                }
                            },
                        }
                    }
                }
                self.unselect_shape();
            },
        }
    }

    /// While no point is held, grabs the control point of shape `shape_index` nearest to `pos`,
    /// if it lies within 10 units; a point already held stays held.
    pub fn select_point_from_shape(&mut self, shape_index: usize, pos: Point)
        requires
            old(self).wf(),
            old(self).selected_shape() == Some(shape_index as int),
            pos.wf(),
        ensures
            final(self).wf(),
            final(self).current_mode() == old(self).current_mode(),
            final(self).pending() == old(self).pending(),
            final(self).shape_list() == old(self).shape_list(),
            final(self).selected_shape() == old(self).selected_shape(),
            final(self).selected_point() == if old(self).selected_point() is Some {
                old(self).selected_point()
            } else {
                grab_target(old(self).shape_list()[shape_index as int].control_points(), pos)
            },
    {
        if self.selected_point_index.is_none() {
            let ghost points = self.shapes@[shape_index as int].control_points();
            let shape = &self.shapes[shape_index];
            let cps = shape.as_slice();
            assert(forall|k: int| 0 <= k < cps@.len() ==> (#[trigger] cps@[k]).wf()) by {
                assert(shape.wf());
            }
            let nearest = nearest_point(cps, pos);
            match nearest {
                Some((point_index, d)) if d < SELECT_DISTANCE_SQUARED => {
                    assert(is_grab_target(points, pos, point_index as int));
                    proof {
                        assert forall|k: int| is_grab_target(points, pos, k) implies k
                            == point_index as int by {
                            lemma_grab_target_unique(points, pos, k, point_index as int);
                        }
                    }
                    self.selected_point_index = Some(point_index);
                },
                _ => {
                    assert forall|k: int| !is_grab_target(points, pos, k) by {
                        if is_grab_target(points, pos, k) {
                            let (b, d) = nearest->Some_0;
                            if k < b {
                                assert(dist2(points[k], pos) > d);
                            } else if k > b {
                                assert(dist2(points[b as int], pos) > dist2(points[k], pos));
                            }
                        }
                    }
                },
            }
        }
    }

    fn update_shape(&mut self, shape_index: usize, pos: Point)
        requires
            old(self).wf(),
            old(self).selected_shape() == Some(shape_index as int),
            pos.wf(),
        ensures
            final(self).wf(),
            final(self).dragged_from(old(self), pos),
    {
        self.select_point_from_shape(shape_index, pos);
        if let Some(point_index) = self.selected_point_index {
            let ghost before = self.shapes@;
            self.shapes[shape_index].replace(point_index, pos);
            assert forall|k: int| 0 <= k < self.shapes@.len() && k != shape_index implies (
            #[trigger] self.shapes@[k]) == before[k] by {}
        }
    }

    /// Drags the selected shape's control point while the primary button is held over the
    /// canvas, returning `true` then; lets the point go when the button is up.
    pub fn move_selected_point(&mut self, primary_down: bool, position: Option<Point>) -> (r:
        bool)
        requires
            old(self).wf(),
            position matches Some(p) ==> p.wf(),
        ensures
            final(self).wf(),
            r == (old(self).selected_shape() is Some && primary_down && position is Some),
            r ==> final(self).dragged_from(old(self), position->Some_0),
            !r && old(self).selected_shape() is Some && !primary_down
                ==> final(self).released_from(old(self)),
            !r && !(old(self).selected_shape() is Some && !primary_down)
                ==> final(self).unchanged_from(old(self)),
    {
        if let Some(selected_index) = self.selected_shape_index {
            if primary_down {
                match position {
                    Some(pos) => {
                        self.update_shape(selected_index, pos);
                        return true;
                    },
                    None => {},
                }
            } else {
                self.selected_point_index = None;
            }
        }
        false
    }

    fn remove_shape(&mut self)
        requires
            old(self).wf(),
            old(self).selected_shape() is Some,
        ensures
            final(self).wf(),
            final(self).removed_from(old(self)),
    {
        if let Some(selection_index) = self.selected_shape_index {
            let ghost before = self.shapes@;
            self.selected_point_index = None;
            self.shapes.remove(selection_index);
            self.selected_shape_index = None;
            assert forall|i: int| 0 <= i < self.shapes@.len() implies !(
            #[trigger] self.shapes@[i]).is_selected() by {
                if i < selection_index {
                    assert(self.shapes@[i] == before[i]);
                } else {
                    assert(self.shapes@[i] == before[i + 1]);
                }
            }
        }
    }

    /// Deletes the selected shape when the delete key was pressed, returning `true` then.
    pub fn remove_selected_shape(&mut self, delete_pressed: bool) -> (r: bool)
        requires
            old(self).wf(),
        ensures
            final(self).wf(),
            r == (delete_pressed && old(self).selected_shape() is Some),
            r ==> final(self).removed_from(old(self)),
            !r ==> final(self).unchanged_from(old(self)),
    {
        if delete_pressed && self.selected_shape_index.is_some() {
            self.remove_shape();
            return true;
        }
        false
    }

    /// One frame of selection mode (see `selection_step`).
    pub fn select(&mut self, input: &PointerInput)
        requires
            old(self).wf(),
            input.wf(),
        ensures
            final(self).wf(),
            final(self).selection_step(old(self), *input),
    {
        if self.remove_selected_shape(input.delete_pressed) {
            return;
        }
        if self.move_selected_point(input.primary_down, input.position) {
            return;
        }
        if input.primary_clicked {
            match input.position {
                Some(pos) => {
                    self.select_next_shape(pos);
                },
                None => {},
            }
        }
    }

    /// One frame of line or circle mode (see `building_step`); returns the preview to render.
    pub fn build(&mut self, input: &PointerInput, shape_builder: ShapeBuilder) -> (r: Option<
        Drawing,
    >)
        requires
            old(self).wf(),
            input.wf(),
            old(self).current_mode() == building_mode(shape_builder),
        ensures
            final(self).wf(),
            final(self).building_step(old(self), *input, shape_builder, r),
    {
        self.unselect_shape();
        let ghost cleared = self.shapes@;
        if input.primary_clicked {
            if let Some(pos) = input.position {
                self.builder.set_next_point(pos, shape_builder);
                if let Some(shape) = self.builder.build(shape_builder) {
                    self.shapes.push(shape);
                    self.builder.reset();
                    assert(self.shapes@.drop_last() =~= cleared);
                }
                return None;
            }
        }
        match input.position {
            Some(pos) => self.builder.draw(pos, shape_builder),
            None => None,
        }
    }

    /// Handles one frame of input in the current mode; returns the preview to render, if any.
    pub fn update(&mut self, input: &PointerInput) -> (r: Option<Drawing>)
        requires
            old(self).wf(),
            input.wf(),
        ensures
            final(self).wf(),
            match old(self).current_mode() {
                Mode::Drag => r is None && final(self).unselected_from(old(self)),
                Mode::Selection => r is None && final(self).selection_step(old(self), *input),
                Mode::Line => final(self).building_step(old(self), *input, ShapeBuilder::Line, r),
                Mode::Circle => final(self).building_step(
                    old(self),
                    *input,
                    ShapeBuilder::Circle,
                    r,
                ),
            },
    {
        match self.mode {
            Mode::Drag => {
                self.unselect_shape();
                None
            },
            Mode::Selection => {
                self.select(input);
                None
            },
            Mode::Line => self.build(input, ShapeBuilder::Line),
            Mode::Circle => self.build(input, ShapeBuilder::Circle),
        }
    }

    /// How to render every shape, in order.
    pub fn draw(&self) -> (r: Vec<Drawing>)
        requires
            self.wf(),
        ensures
            r@.len() == self.shape_list().len(),
            forall|i: int| 0 <= i < r@.len() ==> self.shape_list()[i].drawn_as(&r@[i]),
    {
        let mut out: Vec<Drawing> = Vec::new();
        let mut i: usize = 0;
        while i < self.shapes.len()
            invariant
                self.wf(),
                i <= self.shape_list().len(),
                out@.len() == i,
                forall|k: int| 0 <= k < i ==> self.shape_list()[k].drawn_as(&out@[k]),
            decreases self.shape_list().len() - i,
        {
            out.push(self.shapes[i].draw());
            i = i + 1;
        }
        out
    }
}

/// Picking shape `a` and then shape `b` leaves `a` unflagged and `b` flagged.
pub proof fn lemma_selection_exclusive(
    start: BlueKompassApp,
    first: BlueKompassApp,
    second: BlueKompassApp,
    pa: Point,
    pb: Point,
    a: int,
    b: int,
)
    requires
        start.wf(),
        first.wf(),
        second.wf(),
        first.clicked_from(&start, pa),
        first.selected_shape() == Some(a),
        second.clicked_from(&first, pb),
        second.selected_shape() == Some(b),
        a != b,
    ensures
        !second.shape_list()[a].is_selected(),
        second.shape_list()[b].is_selected(),
{
    assert(0 <= a < first.shape_list().len());
}

/// Deleting the selected shape leaves no shape flagged and no control point selected.
pub proof fn lemma_delete_clears_selection(before: BlueKompassApp, after: BlueKompassApp)
    requires
        before.wf(),
        after.wf(),
        after.removed_from(&before),
    ensures
        forall|i: int| 0 <= i < after.shape_list().len() ==> !(#[trigger] after.shape_list()[i]).is_selected(),
        after.selected_point() is None,
{
}

} // verus!
