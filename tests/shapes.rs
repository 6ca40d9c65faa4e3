use ascii_renderer::error::ConfigError;
use ascii_renderer::shape::{Circle, Rect, Shape};
use ascii_renderer::vector2::Vector2;

fn rect(x: i64, y: i64, w: i64, h: i64) -> Rect {
    Rect::new(Vector2(x, y), w, h).unwrap()
}

#[test]
fn rect_holds_its_position() {
    let r = rect(3, -2, 4, 5);
    assert!(r.contains(&Vector2(3, -2)));
}

#[test]
fn rect_excludes_far_corners() {
    let r = rect(3, -2, 4, 5);
    assert!(!r.contains(&Vector2(7, -2)));
    assert!(!r.contains(&Vector2(3, 3)));
    assert!(!r.contains(&Vector2(7, 3)));
    assert!(!r.contains(&Vector2(3, -7)));
    assert!(r.contains(&Vector2(6, -6)));
    assert!(!r.contains(&Vector2(2, -2)));
}

#[test]
fn rect_is_its_own_bounding_box() {
    let r = rect(1, 2, 3, 4);
    assert_eq!(r.bounding_box(), r);
}

#[test]
fn rect_rejects_non_positive_size() {
    assert_eq!(Rect::new(Vector2(0, 0), 0, 2), Err(ConfigError::NonPositiveSize));
    assert_eq!(Rect::new(Vector2(0, 0), 2, -1), Err(ConfigError::NonPositiveSize));
}

#[test]
fn rects_overlap_only_when_sharing_a_cell() {
    let a = rect(0, 0, 2, 2);
    assert!(a.intersects(&rect(1, -1, 2, 2)));
    assert!(!a.intersects(&rect(2, 0, 2, 2)));
    assert!(!a.intersects(&rect(0, -2, 2, 2)));
    assert!(a.intersects(&rect(-5, 5, 20, 20)));
}

#[test]
fn circle_boundary_is_inside() {
    let c = Circle::new(Vector2(1, 1), 5).unwrap();
    assert!(c.contains(&Vector2(4, 5)));
    assert!(c.contains(&Vector2(6, 1)));
    assert!(c.contains(&Vector2(1, 1)));
}

#[test]
fn circle_just_past_radius_is_outside() {
    let c = Circle::new(Vector2(1, 1), 5).unwrap();
    assert!(!c.contains(&Vector2(7, 1)));
    assert!(!c.contains(&Vector2(5, 5)));
}

#[test]
fn circle_far_points_are_outside() {
    let c = Circle::new(Vector2(0, 0), 3).unwrap();
    assert!(!c.contains(&Vector2(i64::MAX, i64::MIN)));
    assert!(!c.contains(&Vector2(i64::MIN, 0)));
}

#[test]
fn circle_bounding_box_covers_its_cells() {
    let c = Circle::new(Vector2(10, 20), 3).unwrap();
    assert_eq!(c.bounding_box(), rect(7, 23, 7, 7));
    assert!(c.bounding_box().contains(&Vector2(13, 20)));
    assert!(c.bounding_box().contains(&Vector2(10, 17)));
}

#[test]
fn circle_rejects_bad_radius() {
    assert_eq!(Circle::new(Vector2(0, 0), 0), Err(ConfigError::NonPositiveRadius));
    assert_eq!(Circle::new(Vector2(0, 0), -4), Err(ConfigError::NonPositiveRadius));
    assert_eq!(Circle::new(Vector2(i64::MIN, 0), 1), Err(ConfigError::OutOfRange));
    assert_eq!(Circle::new(Vector2(0, 0), i64::MAX / 2 + 1), Err(ConfigError::OutOfRange));
}

#[test]
fn shape_dispatches_to_its_variant() {
    let s = Shape::Circle(Circle::new(Vector2(0, 0), 1).unwrap());
    assert!(s.contains(&Vector2(0, -1)));
    assert!(!s.contains(&Vector2(1, 1)));
    assert_eq!(s.bounding_box(), rect(-1, 1, 3, 3));
    let r = Shape::Rect(rect(0, 0, 1, 1));
    assert!(r.contains(&Vector2(0, 0)));
    assert!(!r.contains(&Vector2(0, -1)));
}
