use bluekompass::maths::{
    compute_circle_center, compute_circle_radius, score_from_ratio, Center, Radius, SCORE_CAP,
    SCORE_UNIT, SELECT_SCORE_LIMIT,
};
use bluekompass::point::{distance_squared, Point, COORD_LIMIT};
use bluekompass::shapes::{Circle, Line};

fn pt(x: i64, y: i64) -> Point {
    Point::new(x, y).unwrap()
}

#[test]
fn point_new_checks_range() {
    assert_eq!(Point::new(3, -4), Some(Point { x: 3, y: -4 }));
    assert_eq!(Point::new(COORD_LIMIT, -COORD_LIMIT), Some(Point { x: COORD_LIMIT, y: -COORD_LIMIT }));
    assert_eq!(Point::new(COORD_LIMIT + 1, 0), None);
    assert_eq!(Point::new(0, -COORD_LIMIT - 1), None);
}

#[test]
fn distance_squared_is_exact() {
    assert_eq!(distance_squared(pt(1, 2), pt(4, 6)), 25);
    assert_eq!(distance_squared(pt(-COORD_LIMIT, -COORD_LIMIT), pt(COORD_LIMIT, COORD_LIMIT)), 2 * (2 * 8192u64) * (2 * 8192u64));
}

#[test]
fn circumcenter_is_equidistant() {
    let points = [pt(0, 0), pt(4, 0), pt(0, 4)];
    let center = compute_circle_center(&points).unwrap();
    assert_eq!(center, Center { x: 64, y: 64, den: 32 });
    let r0 = compute_circle_radius(&center, &points[0]);
    let r1 = compute_circle_radius(&center, &points[1]);
    let r2 = compute_circle_radius(&center, &points[2]);
    assert_eq!(r0, Radius { num: 8192, den: 1024 });
    assert_eq!(r0, r1);
    assert_eq!(r0, r2);
    // The center as floats lies at the same distance from every point.
    let (cx, cy) = (center.x as f64 / center.den as f64, center.y as f64 / center.den as f64);
    for p in points.iter() {
        let d = ((cx - p.x as f64).powi(2) + (cy - p.y as f64).powi(2)).sqrt();
        assert!((d - 8f64.sqrt()).abs() < 1e-9);
    }
}

#[test]
fn circumcenter_normalises_the_sign() {
    let center = compute_circle_center(&[pt(0, 0), pt(0, 4), pt(4, 0)]).unwrap();
    assert_eq!(center, Center { x: 64, y: 64, den: 32 });
}

#[test]
fn collinear_points_have_no_center() {
    assert_eq!(compute_circle_center(&[pt(0, 0), pt(1, 1), pt(5, 5)]), None);
    assert_eq!(compute_circle_center(&[pt(2, 3), pt(2, 3), pt(7, 1)]), None);
}

#[test]
fn line_hit_test_boundary() {
    let line = Line::new([pt(0, 0), pt(10, 0)]);
    assert_eq!(line.select_from_point(pt(5, 0)), Some(0));
    assert_eq!(line.select_from_point(pt(5, 1)), Some(SCORE_UNIT));
    assert_eq!(line.select_from_point(pt(-1, 0)), None);
    assert_eq!(line.select_from_point(pt(11, 3)), None);
    assert_eq!(line.select_from_point(pt(10, 3)), Some(9 * SCORE_UNIT));
}

#[test]
fn degenerate_line_is_never_hit() {
    let line = Line::new([pt(2, 2), pt(2, 2)]);
    assert_eq!(line.select_from_point(pt(2, 2)), None);
}

#[test]
fn circle_hit_test_measures_boundary_distance() {
    let circle = Circle::new([pt(0, 5), pt(5, 0), pt(-5, 0)]);
    assert_eq!(circle.center(), Some(Center { x: 0, y: 0, den: 100 }));
    assert_eq!(circle.select_from_point(pt(5, 0)), Some(0));
    assert_eq!(circle.select_from_point(pt(3, 4)), Some(0));
    // (|p - c|^2 - r^2) / r = (49 - 25) / 5 = 4.8, squared 23.04
    assert_eq!(circle.select_from_point(pt(0, 7)), Some(98956046499));
}

#[test]
fn degenerate_circle_has_no_geometry() {
    let circle = Circle::new([pt(0, 0), pt(1, 1), pt(2, 2)]);
    assert_eq!(circle.center(), None);
    assert_eq!(circle.radius(), None);
    assert_eq!(circle.select_from_point(pt(1, 1)), None);
    let drawing = circle.draw();
    assert!(drawing.outline.is_none());
    assert_eq!(drawing.markers, vec![pt(0, 0), pt(1, 1), pt(2, 2)]);
}

#[test]
fn score_threshold_is_ten_units() {
    assert_eq!(SELECT_SCORE_LIMIT, 100 * SCORE_UNIT);
    assert_eq!(score_from_ratio(99, 1), 99 * SCORE_UNIT);
    assert_eq!(score_from_ratio(100, 1), SELECT_SCORE_LIMIT);
    assert_eq!(score_from_ratio(1, 3), SCORE_UNIT / 3);
    assert_eq!(score_from_ratio(u128::MAX, 1), SCORE_CAP);
    assert_eq!(score_from_ratio(0, 7), 0);
}
