use bluekompass::builders::{Builder, ShapeBuilder};
use bluekompass::point::Point;
use bluekompass::shapes::{Circle, Line, Outline, Shape};

fn pt(x: i64, y: i64) -> Point {
    Point::new(x, y).unwrap()
}

#[test]
fn replace_keeps_circle_consistent() {
    let mut circle = Circle::new([pt(0, 0), pt(4, 0), pt(0, 4)]);
    circle.replace(2, pt(0, 6));
    let built = Circle::new([pt(0, 0), pt(4, 0), pt(0, 6)]);
    assert_eq!(circle.as_slice(), built.as_slice());
    assert_eq!(circle.center(), built.center());
    assert_eq!(circle.radius(), built.radius());
    let c = circle.center().unwrap();
    assert_eq!((c.x, c.y, c.den), (96, 144, 48));
    for index in 0..3 {
        let mut moved = Circle::new([pt(1, 0), pt(0, 1), pt(-1, 0)]);
        moved.replace(index, pt(0, -1));
        let mut points = [pt(1, 0), pt(0, 1), pt(-1, 0)];
        points[index] = pt(0, -1);
        let fresh = Circle::new(points);
        assert_eq!(moved.center(), fresh.center());
        assert_eq!(moved.radius(), fresh.radius());
    }
}

#[test]
fn replace_moves_a_line_endpoint() {
    let mut line = Line::new([pt(0, 0), pt(10, 0)]);
    line.select();
    line.replace(1, pt(3, 4));
    assert_eq!(line.as_slice(), &[pt(0, 0), pt(3, 4)]);
    assert!(line.selected());
}

#[test]
fn select_and_unselect_flip_the_flag() {
    let mut shape = Shape::Circle(Circle::new([pt(0, 5), pt(5, 0), pt(-5, 0)]));
    assert!(!shape.selected());
    shape.select();
    assert!(shape.selected());
    assert!(shape.draw().highlighted);
    shape.unselect();
    assert!(!shape.selected());
}

#[test]
fn line_draws_segment_and_markers() {
    let line = Line::new([pt(1, 2), pt(3, 4)]);
    let d = line.draw();
    assert_eq!(d.outline, Some(Outline::Segment(pt(1, 2), pt(3, 4))));
    assert_eq!(d.markers, vec![pt(1, 2), pt(3, 4)]);
    assert!(d.center.is_none());
    assert!(!d.highlighted);
}

#[test]
fn circle_draws_outline_and_center() {
    let circle = Circle::new([pt(0, 5), pt(5, 0), pt(-5, 0)]);
    let d = circle.draw();
    match d.outline {
        Some(Outline::Round(c, r)) => {
            assert_eq!((c.x, c.y, c.den), (0, 0, 100));
            assert_eq!(r.num / r.den, 25);
        }
        _ => panic!("expected a circle outline"),
    }
    assert_eq!(d.center, circle.center());
    assert_eq!(d.markers.len(), 3);
}

#[test]
fn builder_line_completion() {
    let mut builder = Builder::new();
    builder.set_next_point(pt(0, 0), ShapeBuilder::Line);
    assert!(builder.build(ShapeBuilder::Line).is_none());
    builder.set_next_point(pt(10, 0), ShapeBuilder::Line);
    match builder.build(ShapeBuilder::Line) {
        Some(Shape::Line(line)) => assert_eq!(line.as_slice(), &[pt(0, 0), pt(10, 0)]),
        _ => panic!("expected a line"),
    }
}

#[test]
fn builder_ignores_points_beyond_the_shape() {
    let mut builder = Builder::new();
    builder.set_next_point(pt(0, 0), ShapeBuilder::Line);
    builder.set_next_point(pt(1, 0), ShapeBuilder::Line);
    builder.set_next_point(pt(2, 0), ShapeBuilder::Line);
    assert_eq!(builder.points(), &vec![pt(0, 0), pt(1, 0)]);
    builder.reset();
    assert!(builder.points().is_empty());
}

#[test]
fn builder_circle_completion() {
    let mut builder = Builder::new();
    builder.set_next_point(pt(0, 5), ShapeBuilder::Circle);
    builder.set_next_point(pt(5, 0), ShapeBuilder::Circle);
    assert!(builder.build(ShapeBuilder::Circle).is_none());
    builder.set_next_point(pt(-5, 0), ShapeBuilder::Circle);
    match builder.build(ShapeBuilder::Circle) {
        Some(Shape::Circle(circle)) => {
            assert_eq!(circle.as_slice(), &[pt(0, 5), pt(5, 0), pt(-5, 0)]);
            assert!(!circle.selected());
        }
        _ => panic!("expected a circle"),
    }
}

#[test]
fn builder_previews() {
    let mut builder = Builder::new();
    assert!(builder.draw(pt(3, 3), ShapeBuilder::Line).is_none());
    assert!(builder.draw(pt(3, 3), ShapeBuilder::Circle).is_none());
    builder.set_next_point(pt(0, 5), ShapeBuilder::Circle);
    let lone = builder.draw(pt(3, 3), ShapeBuilder::Circle).unwrap();
    assert!(lone.outline.is_none());
    assert_eq!(lone.markers, vec![pt(0, 5)]);
    let line = builder.draw(pt(3, 3), ShapeBuilder::Line).unwrap();
    assert_eq!(line.outline, Some(Outline::Segment(pt(0, 5), pt(3, 3))));
    builder.set_next_point(pt(5, 0), ShapeBuilder::Circle);
    let circle = builder.draw(pt(-5, 0), ShapeBuilder::Circle).unwrap();
    assert_eq!(circle.markers, vec![pt(0, 5), pt(5, 0), pt(-5, 0)]);
    assert_eq!(circle.center.map(|c| (c.x, c.y, c.den)), Some((0, 0, 100)));
    assert_eq!(builder.points().len(), 2);
}
