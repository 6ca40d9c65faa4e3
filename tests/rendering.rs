use ascii_renderer::error::ConfigError;
use ascii_renderer::renderer::{Renderer, RendererOptions};
use ascii_renderer::shape::{Circle, Rect, Shape};
use ascii_renderer::vector2::Vector2;

fn renderer(w: usize, h: usize) -> Renderer {
    Renderer::new(RendererOptions { viewport_width: w, viewport_height: h }).unwrap()
}

fn move_to(r: &mut Renderer, x: i64, y: i64) {
    let p = r.position();
    r.walk(Vector2::right(), x - p.0);
    r.walk(Vector2::up(), y - p.1);
}

fn text(r: &Renderer) -> String {
    r.buffer().iter().collect()
}

#[test]
fn new_renderer_is_blank_at_origin() {
    let r = renderer(3, 2);
    assert_eq!(text(&r), "      ");
    assert_eq!(r.position(), Vector2(0, 0));
    assert_eq!(r.options(), RendererOptions { viewport_width: 3, viewport_height: 2 });
}

#[test]
fn empty_viewport_is_refused() {
    let e = Renderer::new(RendererOptions { viewport_width: 0, viewport_height: 4 }).err();
    assert_eq!(e, Some(ConfigError::EmptyViewport));
    let e = Renderer::new(RendererOptions { viewport_width: 4, viewport_height: 0 }).err();
    assert_eq!(e, Some(ConfigError::EmptyViewport));
}

#[test]
fn oversized_viewport_is_refused() {
    let e = Renderer::new(RendererOptions { viewport_width: usize::MAX, viewport_height: 2 }).err();
    assert_eq!(e, Some(ConfigError::ViewportTooLarge));
}

#[test]
fn circle_scenario_centred_camera() {
    let mut r = renderer(4, 4);
    r.add_shape(Shape::Circle(Circle::new(Vector2(0, 0), 1).unwrap()));
    move_to(&mut r, -2, 2);
    r.render();
    assert_eq!(text(&r), "      #  ###  # ");
    for (x, y) in [(0usize, 0usize), (3, 0), (0, 3), (3, 3)] {
        assert_eq!(r.buffer()[x + y * 4], ' ');
    }
}

#[test]
fn rect_scenario_anchored_camera() {
    let mut r = renderer(5, 5);
    r.add_shape(Shape::Rect(Rect::new(Vector2(0, 0), 2, 2).unwrap()));
    r.render();
    assert_eq!(r.global_position_of(&Vector2(0, 0)), Vector2(0, 0));
    assert_eq!(r.buffer()[0], '#');
    assert_eq!(r.buffer()[1 + 5], '#');
    assert_eq!(r.buffer()[2], ' ');
    assert_eq!(text(&r), "##   ##                  ");
}

#[test]
fn empty_scene_is_blank_anywhere() {
    let mut r = renderer(3, 3);
    move_to(&mut r, -1000, 77);
    r.render();
    assert!(r.buffer().iter().all(|c| *c == ' '));
    assert_eq!(r.buffer().len(), 9);
}

#[test]
fn render_twice_is_identical() {
    let mut r = renderer(6, 4);
    r.add_shape(Shape::Circle(Circle::new(Vector2(2, -1), 2).unwrap()));
    r.add_shape(Shape::Rect(Rect::new(Vector2(-3, 0), 4, 1).unwrap()));
    r.render();
    let first = r.buffer().clone();
    r.render();
    assert_eq!(r.buffer(), &first);
}

#[test]
fn render_clears_previous_frame() {
    let mut r = renderer(3, 1);
    r.add_shape(Shape::Rect(Rect::new(Vector2(0, 0), 1, 1).unwrap()));
    r.render();
    assert_eq!(text(&r), "#  ");
    r.walk(Vector2::left(), 2);
    r.render();
    assert_eq!(text(&r), "  #");
    r.walk(Vector2::up(), 1);
    r.render();
    assert_eq!(text(&r), "   ");
}

#[test]
fn walk_up_then_down_restores_position() {
    let mut r = renderer(2, 2);
    move_to(&mut r, 5, -3);
    r.walk(Vector2::up(), 7);
    assert_eq!(r.position(), Vector2(5, 4));
    r.walk(Vector2::down(), 7);
    assert_eq!(r.position(), Vector2(5, -3));
    r.walk(Vector2::left(), 2);
    r.walk(Vector2::right(), 2);
    assert_eq!(r.position(), Vector2(5, -3));
}

#[test]
fn culling_keeps_a_circle_seen_by_its_edge_only() {
    let mut r = renderer(3, 1);
    r.add_shape(Shape::Circle(Circle::new(Vector2(0, 0), 2).unwrap()));
    move_to(&mut r, 2, 0);
    r.render();
    assert_eq!(text(&r), "#  ");
    move_to(&mut r, -4, 0);
    r.render();
    assert_eq!(text(&r), "  #");
}

#[test]
fn culling_drops_shapes_out_of_view() {
    let mut r = renderer(4, 2);
    r.add_shape(Shape::Rect(Rect::new(Vector2(100, 100), 3, 3).unwrap()));
    r.add_shape(Shape::Circle(Circle::new(Vector2(-50, 0), 5).unwrap()));
    r.add_shape(Shape::Rect(Rect::new(Vector2(3, -1), 1, 1).unwrap()));
    assert!(!r.collides_with_rect(&Rect::new(Vector2(100, 100), 3, 3).unwrap()));
    assert!(r.collides_with_rect(&Rect::new(Vector2(3, -1), 1, 1).unwrap()));
    r.render();
    assert_eq!(text(&r), "       #");
}

#[test]
fn camera_bbox_is_the_viewport() {
    let mut r = renderer(4, 3);
    move_to(&mut r, -1, 2);
    assert_eq!(r.bbox(), Rect::new(Vector2(-1, 2), 4, 3).unwrap());
}

#[test]
fn lines_match_buffer_cells() {
    let mut r = renderer(3, 2);
    r.add_shape(Shape::Rect(Rect::new(Vector2(1, 0), 2, 1).unwrap()));
    r.add_shape(Shape::Rect(Rect::new(Vector2(0, -1), 1, 1).unwrap()));
    r.render();
    let lines = r.lines();
    assert_eq!(lines, vec![" ##".to_string(), "#  ".to_string()]);
    for y in 0..2 {
        for x in 0..3 {
            assert_eq!(lines[y].chars().nth(x).unwrap(), r.buffer()[x + y * 3]);
        }
    }
}

#[test]
fn display_lines_space_each_cell() {
    let mut r = renderer(3, 2);
    r.add_shape(Shape::Rect(Rect::new(Vector2(1, 0), 1, 2).unwrap()));
    r.render();
    assert_eq!(r.display_lines(), vec!["  #   ".to_string(), "  #   ".to_string()]);
}

#[test]
fn local_and_global_pixels_row_major() {
    let mut r = renderer(2, 2);
    move_to(&mut r, 10, 20);
    assert_eq!(r.local_pixels(), vec![Vector2(0, 0), Vector2(1, 0), Vector2(0, 1), Vector2(1, 1)]);
    assert_eq!(
        r.global_pixels(),
        vec![Vector2(10, 20), Vector2(11, 20), Vector2(10, 19), Vector2(11, 19)]
    );
    assert_eq!(r.index_of(&Vector2(1, 1)), 3);
    assert_eq!(r.global_position_of(&Vector2(1, 0)), Vector2(11, 20));
}
