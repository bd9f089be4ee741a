use climps::map::{Command, ViewState, PAN_STEP};
use climps::projection::{Mercator, MAX_LON, MERCATOR_MAX_LAT};
use climps::render::AsciiRenderer;
use climps::{BoundingBox, GeoBox, Geometry, LngLat, Point};

fn pt(x: i32, y: i32) -> Point {
    Point { x, y }
}

fn world() -> BoundingBox {
    BoundingBox { min: pt(-1000, -800), max: pt(1000, 800) }
}

fn view(zoom: i32) -> ViewState {
    ViewState::new(LngLat { lon: 0, lat: 0 }, zoom)
}

#[test]
fn zoom_zero_shows_the_whole_world() {
    assert_eq!(view(0).calculate_viewport(world(), pt(0, 0)), world());
}

#[test]
fn each_zoom_level_halves_the_span() {
    let b = view(1).calculate_viewport(world(), pt(0, 0));
    assert_eq!(b, BoundingBox { min: pt(-500, -400), max: pt(500, 400) });
    let b = view(2).calculate_viewport(world(), pt(100, -100));
    assert_eq!(b, BoundingBox { min: pt(-150, -300), max: pt(350, 100) });
}

#[test]
fn visible_span_shrinks_with_zoom() {
    let mut last: i32 = i32::MAX;
    for z in 0..8 {
        let b = view(z).calculate_viewport(world(), pt(0, 0));
        let span = b.max.x - b.min.x;
        assert!(span < last);
        last = span;
    }
}

#[test]
fn viewport_is_clamped_to_the_world() {
    let b = view(1).calculate_viewport(world(), pt(900, -700));
    assert_eq!(b, BoundingBox { min: pt(400, -800), max: pt(1000, -300) });
    let b = view(3).calculate_viewport(world(), pt(5000, 5000));
    assert_eq!(b, BoundingBox { min: pt(875, 700), max: pt(1000, 800) });
}

#[test]
fn negative_zoom_shows_the_whole_world() {
    assert_eq!(view(-3).calculate_viewport(world(), pt(700, 20)), world());
    assert_eq!(view(i32::MIN).calculate_viewport(world(), pt(0, 0)), world());
}

#[test]
fn very_deep_zoom_gives_an_empty_box() {
    let b = view(40).calculate_viewport(world(), pt(10, 20));
    assert_eq!(b, BoundingBox { min: pt(10, 20), max: pt(10, 20) });
    let r = AsciiRenderer { width: 4, height: 4 };
    assert_eq!(r.map_to_screen_coords(&b, pt(10, 20)), None);
}

#[test]
fn default_view_is_the_whole_world() {
    let v = ViewState::default();
    assert_eq!(v, ViewState::new(LngLat { lon: 0, lat: 0 }, 0));
}

#[test]
fn mercator_domain_avoids_the_poles() {
    let b = Mercator.get_map_bounds();
    assert_eq!(
        b,
        GeoBox {
            min: LngLat { lon: -1_800_000_000, lat: -850_511_287 },
            max: LngLat { lon: 1_800_000_000, lat: 850_511_287 },
        }
    );
}

#[test]
fn pan_moves_half_a_degree() {
    let v = view(2);
    assert_eq!(v.apply(Command::Right).center, LngLat { lon: 5_000_000, lat: 0 });
    assert_eq!(v.apply(Command::Left).center, LngLat { lon: -5_000_000, lat: 0 });
    assert_eq!(v.apply(Command::Up).center, LngLat { lon: 0, lat: PAN_STEP });
    assert_eq!(v.apply(Command::Down).center, LngLat { lon: 0, lat: -PAN_STEP });
    assert_eq!(v.apply(Command::Down).zoom, 2);
}

#[test]
fn pan_goes_past_the_domain() {
    let v = ViewState::new(LngLat { lon: MAX_LON - 1, lat: MERCATOR_MAX_LAT }, 0);
    let moved = v.apply(Command::Right);
    assert_eq!(moved.center, LngLat { lon: MAX_LON - 1 + PAN_STEP, lat: MERCATOR_MAX_LAT });
    let up = moved.apply(Command::Up);
    assert_eq!(up.center.lat, MERCATOR_MAX_LAT + PAN_STEP);
    let edge = ViewState::new(LngLat { lon: i32::MAX - 1, lat: i32::MIN + 1 }, 0);
    assert_eq!(edge.apply(Command::Right).center.lon, i32::MAX);
    assert_eq!(edge.apply(Command::Down).center.lat, i32::MIN);
}

#[test]
fn domain_clamp_brings_a_center_back() {
    let far = LngLat { lon: MAX_LON + PAN_STEP, lat: -MERCATOR_MAX_LAT - 7 };
    assert_eq!(Mercator.clamp_to_domain(far), LngLat { lon: MAX_LON, lat: -MERCATOR_MAX_LAT });
    let inside = LngLat { lon: -123_456_789, lat: 450_000_000 };
    assert_eq!(Mercator.clamp_to_domain(inside), inside);
}

#[test]
fn zoom_commands_change_the_level() {
    let v = view(0);
    assert_eq!(v.apply(Command::ZoomIn).zoom, 1);
    assert_eq!(v.apply(Command::ZoomOut).zoom, -1);
    assert_eq!(view(i32::MAX).apply(Command::ZoomIn).zoom, i32::MAX);
    assert_eq!(view(i32::MIN).apply(Command::ZoomOut).zoom, i32::MIN);
    assert_eq!(v.apply(Command::Other), v);
    assert_eq!(v.apply(Command::Quit), v);
}

#[test]
fn frame_combines_viewport_and_drawing() {
    let r = AsciiRenderer { width: 4, height: 4 };
    let features = vec![Some(Geometry::Point(Some(pt(-250, 150))))];
    let frame = r.render_frame(&view(1), world(), pt(0, 0), &features);
    // the visible box is (-500, -400) to (500, 400)
    let mut expected = r.new_buffer();
    expected[1][1] = '*';
    assert_eq!(frame, expected);
}
