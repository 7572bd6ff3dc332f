use bluekompass::editor::{BlueKompassApp, Mode, PointerInput};
use bluekompass::point::Point;
use bluekompass::shapes::{Outline, Shape};

fn pt(x: i64, y: i64) -> Point {
    Point::new(x, y).unwrap()
}

fn click(x: i64, y: i64) -> PointerInput {
    PointerInput { position: Some(pt(x, y)), primary_clicked: true, primary_down: false, delete_pressed: false }
}

fn hold(x: i64, y: i64) -> PointerInput {
    PointerInput { position: Some(pt(x, y)), primary_clicked: false, primary_down: true, delete_pressed: false }
}

fn hover(x: i64, y: i64) -> PointerInput {
    PointerInput { position: Some(pt(x, y)), primary_clicked: false, primary_down: false, delete_pressed: false }
}

fn delete() -> PointerInput {
    PointerInput { position: None, primary_clicked: false, primary_down: false, delete_pressed: true }
}

fn selected_flags(app: &BlueKompassApp) -> Vec<bool> {
    app.shapes().iter().map(|s| s.selected()).collect()
}

fn with_two_lines() -> BlueKompassApp {
    let mut app = BlueKompassApp::new();
    app.set_mode(Mode::Line);
    app.update(&click(0, 0));
    app.update(&click(10, 0));
    app.update(&click(0, 100));
    app.update(&click(10, 100));
    app.set_mode(Mode::Selection);
    app
}

#[test]
fn click_build_select_delete() {
    let mut app = BlueKompassApp::new();
    app.set_mode(Mode::Line);
    assert!(app.update(&click(0, 0)).is_none());
    assert!(app.update(&click(10, 0)).is_none());
    assert_eq!(app.shapes().len(), 1);
    match &app.shapes()[0] {
        Shape::Line(line) => assert_eq!(line.as_slice(), &[pt(0, 0), pt(10, 0)]),
        _ => panic!("expected a line"),
    }
    assert!(app.builder().points().is_empty());

    // Whole canvas units are the finest step: the click lies one unit off the line.
    app.set_mode(Mode::Selection);
    app.update(&click(5, 1));
    assert_eq!(app.selected_shape_index(), Some(0));
    assert!(app.shapes()[0].selected());

    app.update(&delete());
    assert!(app.shapes().is_empty());
    assert_eq!(app.selected_shape_index(), None);
    assert_eq!(app.selected_point_index(), None);
}

#[test]
fn selection_is_exclusive() {
    let mut app = with_two_lines();
    app.update(&click(5, 2));
    assert_eq!(selected_flags(&app), vec![true, false]);
    app.update(&click(5, 98));
    assert_eq!(selected_flags(&app), vec![false, true]);
    assert_eq!(app.selected_shape_index(), Some(1));
    app.update(&delete());
    assert_eq!(app.shapes().len(), 1);
    assert_eq!(selected_flags(&app), vec![false]);
    assert_eq!(app.selected_point_index(), None);
}

#[test]
fn click_on_empty_space_deselects() {
    let mut app = with_two_lines();
    app.update(&click(5, 2));
    assert_eq!(app.selected_shape_index(), Some(0));
    app.update(&click(5, 50));
    assert_eq!(app.selected_shape_index(), None);
    assert_eq!(selected_flags(&app), vec![false, false]);
}

#[test]
fn score_of_exactly_ten_does_not_select() {
    let mut app = with_two_lines();
    app.update(&click(5, 10));
    assert_eq!(app.selected_shape_index(), None);
    app.update(&click(5, 9));
    assert_eq!(app.selected_shape_index(), Some(0));
}

#[test]
fn equal_scores_pick_the_first_shape() {
    let mut app = BlueKompassApp::new();
    app.set_mode(Mode::Line);
    app.update(&click(0, 0));
    app.update(&click(10, 0));
    app.update(&click(0, 0));
    app.update(&click(10, 0));
    app.set_mode(Mode::Selection);
    app.update(&click(5, 3));
    assert_eq!(app.selected_shape_index(), Some(0));
    assert_eq!(selected_flags(&app), vec![true, false]);
}

#[test]
fn drag_moves_the_grabbed_point() {
    let mut app = with_two_lines();
    app.update(&click(5, 1));
    assert!(app.update(&hold(1, 3)).is_none());
    assert_eq!(app.selected_point_index(), Some(0));
    assert_eq!(app.shapes()[0].as_slice(), &[pt(1, 3), pt(10, 0)]);
    // The point stays grabbed though the pointer moves far from its marker.
    app.update(&hold(60, 60));
    assert_eq!(app.shapes()[0].as_slice(), &[pt(60, 60), pt(10, 0)]);
    assert_eq!(app.shapes()[1].as_slice(), &[pt(0, 100), pt(10, 100)]);
    app.update(&hover(60, 60));
    assert_eq!(app.selected_point_index(), None);
    assert_eq!(app.selected_shape_index(), Some(0));
}

#[test]
fn press_far_from_points_grabs_nothing() {
    let mut app = BlueKompassApp::new();
    app.set_mode(Mode::Line);
    app.update(&click(0, 0));
    app.update(&click(100, 0));
    app.set_mode(Mode::Selection);
    app.update(&click(50, 1));
    assert_eq!(app.selected_shape_index(), Some(0));
    app.update(&hold(50, 1));
    assert_eq!(app.selected_point_index(), None);
    assert_eq!(app.shapes()[0].as_slice(), &[pt(0, 0), pt(100, 0)]);
    // Ten units away is out of reach; nine is within it.
    app.update(&hold(90, 0));
    assert_eq!(app.selected_point_index(), None);
    app.update(&hold(91, 0));
    assert_eq!(app.selected_point_index(), Some(1));
    assert_eq!(app.shapes()[0].as_slice(), &[pt(0, 0), pt(91, 0)]);
}

#[test]
fn drag_reshapes_a_circle() {
    let mut app = BlueKompassApp::new();
    app.set_mode(Mode::Circle);
    app.update(&click(0, 5));
    app.update(&click(5, 0));
    assert_eq!(app.shapes().len(), 0);
    app.update(&click(-5, 0));
    assert_eq!(app.shapes().len(), 1);
    app.set_mode(Mode::Selection);
    app.update(&click(0, 5));
    assert_eq!(app.selected_shape_index(), Some(0));
    app.update(&hold(0, 6));
    match &app.shapes()[0] {
        Shape::Circle(circle) => {
            assert_eq!(circle.as_slice(), &[pt(0, 6), pt(5, 0), pt(-5, 0)]);
            let c = circle.center().unwrap();
            // center (0, 11/12)
            assert_eq!(c.x, 0);
            assert_eq!(c.y * 12, 11 * c.den);
        }
        _ => panic!("expected a circle"),
    }
}

#[test]
fn delete_without_selection_falls_through_to_click() {
    let mut app = with_two_lines();
    let input = PointerInput { position: Some(pt(5, 1)), primary_clicked: true, primary_down: false, delete_pressed: true };
    app.update(&input);
    assert_eq!(app.shapes().len(), 2);
    assert_eq!(app.selected_shape_index(), Some(0));
}

#[test]
fn drag_mode_clears_selection() {
    let mut app = with_two_lines();
    app.update(&click(5, 1));
    app.set_mode(Mode::Drag);
    assert!(app.update(&click(5, 1)).is_none());
    assert_eq!(app.selected_shape_index(), None);
    assert_eq!(selected_flags(&app), vec![false, false]);
}

#[test]
fn building_clears_selection_and_previews() {
    let mut app = with_two_lines();
    app.update(&click(5, 1));
    app.set_mode(Mode::Line);
    assert!(app.update(&hover(3, 3)).is_none());
    assert_eq!(app.selected_shape_index(), None);
    app.update(&click(20, 20));
    let preview = app.update(&hover(30, 20)).unwrap();
    assert_eq!(preview.outline, Some(Outline::Segment(pt(20, 20), pt(30, 20))));
    let off_canvas = PointerInput { position: None, primary_clicked: true, primary_down: false, delete_pressed: false };
    assert!(app.update(&off_canvas).is_none());
    assert_eq!(app.builder().points(), &vec![pt(20, 20)]);
}

#[test]
fn switching_mode_drops_pending_points() {
    let mut app = BlueKompassApp::new();
    app.set_mode(Mode::Circle);
    app.update(&click(0, 5));
    app.update(&click(5, 0));
    app.set_mode(Mode::Line);
    assert!(app.builder().points().is_empty());
    assert_eq!(app.mode(), Mode::Line);
    app.update(&click(1, 1));
    assert!(app.shapes().is_empty());
}

#[test]
fn draw_describes_every_shape() {
    let mut app = with_two_lines();
    app.update(&click(5, 99));
    let drawings = app.draw();
    assert_eq!(drawings.len(), 2);
    assert!(!drawings[0].highlighted);
    assert!(drawings[1].highlighted);
    assert_eq!(drawings[1].markers, vec![pt(0, 100), pt(10, 100)]);
}
