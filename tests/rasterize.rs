use climps::render::AsciiRenderer;
use climps::{BoundingBox, Geometry, Point};

fn pt(x: i32, y: i32) -> Point {
    Point { x, y }
}

fn bbox(x0: i32, y0: i32, x1: i32, y1: i32) -> BoundingBox {
    BoundingBox { min: pt(x0, y0), max: pt(x1, y1) }
}

fn touched(buffer: &Vec<Vec<char>>, glyph: char) -> Vec<(usize, usize)> {
    let mut cells = Vec::new();
    for (row, line) in buffer.iter().enumerate() {
        for (col, c) in line.iter().enumerate() {
            if *c == glyph {
                cells.push((col, row));
            }
        }
    }
    cells
}

#[test]
fn screen_mapping_scenario() {
    let r = AsciiRenderer { width: 10, height: 10 };
    let vp = bbox(-10, -10, 10, 10);
    assert_eq!(r.map_to_screen_coords(&vp, pt(0, 0)), Some((5, 5)));
    assert_eq!(r.map_to_screen_coords(&vp, pt(11, 0)), None);
    // the bottom-left corner falls one row below the grid
    assert_eq!(r.map_to_screen_coords(&vp, pt(-10, -10)), None);
    assert_eq!(r.map_to_screen_coords(&vp, pt(-10, -9)), Some((0, 9)));
    assert_eq!(r.map_to_screen_coords(&vp, pt(-10, 10)), Some((0, 0)));
}

#[test]
fn points_outside_the_viewport_have_no_cell() {
    let r = AsciiRenderer { width: 8, height: 6 };
    let vp = bbox(0, 0, 80, 60);
    assert_eq!(r.map_to_screen_coords(&vp, pt(-1, 30)), None);
    assert_eq!(r.map_to_screen_coords(&vp, pt(81, 30)), None);
    assert_eq!(r.map_to_screen_coords(&vp, pt(40, -1)), None);
    assert_eq!(r.map_to_screen_coords(&vp, pt(40, 61)), None);
    assert_eq!(r.map_to_screen_coords(&vp, pt(79, 59)), Some((7, 0)));
}

#[test]
fn viewport_center_maps_to_middle_cell() {
    let r = AsciiRenderer { width: 7, height: 5 };
    let vp = bbox(0, 0, 100, 40);
    assert_eq!(r.map_to_screen_coords(&vp, pt(50, 20)), Some((3, 2)));
    let r = AsciiRenderer { width: 150, height: 50 };
    let vp = bbox(-2000, -1000, 2000, 1000);
    assert_eq!(r.map_to_screen_coords(&vp, pt(0, 0)), Some((75, 25)));
}

#[test]
fn degenerate_viewport_maps_nothing() {
    let r = AsciiRenderer { width: 10, height: 10 };
    assert_eq!(r.map_to_screen_coords(&bbox(5, -10, 5, 10), pt(5, 0)), None);
    assert_eq!(r.map_to_screen_coords(&bbox(-10, 3, 10, 3), pt(0, 3)), None);
}

#[test]
fn mapping_uses_the_scale_of_each_axis() {
    let r = AsciiRenderer { width: 4, height: 2 };
    let vp = bbox(0, 0, 1000, 1000);
    assert_eq!(r.map_to_screen_coords(&vp, pt(249, 999)), Some((0, 0)));
    assert_eq!(r.map_to_screen_coords(&vp, pt(250, 499)), Some((1, 1)));
    assert_eq!(r.map_to_screen_coords(&vp, pt(999, 500)), Some((3, 1)));
}

#[test]
fn new_buffer_is_background() {
    let r = AsciiRenderer { width: 3, height: 2 };
    assert_eq!(r.new_buffer(), vec![vec!['.'; 3]; 2]);
    let r = AsciiRenderer { width: 0, height: 0 };
    assert!(r.new_buffer().is_empty());
}

#[test]
fn draw_line_horizontal() {
    let r = AsciiRenderer { width: 6, height: 3 };
    let mut b = r.new_buffer();
    r.draw_line(1, 1, 4, 1, &mut b);
    assert_eq!(touched(&b, '+'), vec![(1, 1), (2, 1), (3, 1), (4, 1)]);
}

#[test]
fn draw_line_shallow_slope() {
    let r = AsciiRenderer { width: 5, height: 5 };
    let mut b = r.new_buffer();
    r.draw_line(0, 0, 4, 2, &mut b);
    let mut cells = touched(&b, '+');
    cells.sort();
    assert_eq!(cells, vec![(0, 0), (1, 1), (2, 1), (3, 2), (4, 2)]);
}

#[test]
fn draw_line_is_symmetric_off_the_axes() {
    let r = AsciiRenderer { width: 3, height: 2 };
    let mut ab = r.new_buffer();
    r.draw_line(0, 0, 2, 1, &mut ab);
    let mut ba = r.new_buffer();
    r.draw_line(2, 1, 0, 0, &mut ba);
    assert_eq!(touched(&ab, '+'), vec![(0, 0), (1, 1), (2, 1)]);
    assert_eq!(ab, ba);
}

#[test]
fn draw_line_symmetric_on_a_larger_grid() {
    let r = AsciiRenderer { width: 10, height: 10 };
    let cases = [(0, 0, 2, 1), (7, 2, 1, 5), (9, 0, 0, 3), (2, 9, 8, 0), (5, 5, 0, 5)];
    for (x0, y0, x1, y1) in cases {
        let mut ab = r.new_buffer();
        r.draw_line(x0, y0, x1, y1, &mut ab);
        let mut ba = r.new_buffer();
        r.draw_line(x1, y1, x0, y0, &mut ba);
        assert_eq!(ab, ba);
        assert_eq!(ab[y0][x0], '+');
        assert_eq!(ab[y1][x1], '+');
    }
}

#[test]
fn draw_line_straight_lines_are_symmetric() {
    let r = AsciiRenderer { width: 8, height: 8 };
    let cases = [(1, 1, 6, 1), (3, 7, 3, 0), (0, 0, 7, 7), (6, 1, 1, 6), (4, 4, 4, 4)];
    for (x0, y0, x1, y1) in cases {
        let mut ab = r.new_buffer();
        r.draw_line(x0, y0, x1, y1, &mut ab);
        let mut ba = r.new_buffer();
        r.draw_line(x1, y1, x0, y0, &mut ba);
        assert_eq!(ab, ba);
    }
}

#[test]
fn draw_line_single_cell() {
    let r = AsciiRenderer { width: 3, height: 3 };
    let mut b = r.new_buffer();
    r.draw_line(2, 0, 2, 0, &mut b);
    assert_eq!(touched(&b, '+'), vec![(2, 0)]);
}

#[test]
fn draw_line_skips_cells_beyond_the_grid() {
    let r = AsciiRenderer { width: 3, height: 2 };
    let mut b = r.new_buffer();
    r.draw_line(0, 1, 9, 1, &mut b);
    assert_eq!(b, vec![vec!['.'; 3], vec!['+'; 3]]);
    let mut b = r.new_buffer();
    r.draw_line(5, 5, 9, 9, &mut b);
    assert_eq!(b, r.new_buffer());
}

fn square_ring() -> Vec<Option<Point>> {
    vec![Some(pt(1, 1)), Some(pt(8, 1)), Some(pt(8, 8)), Some(pt(1, 8))]
}

#[test]
fn polygon_ring_draws_four_edges() {
    let r = AsciiRenderer { width: 10, height: 10 };
    let vp = bbox(0, 0, 10, 10);
    let features = vec![Some(Geometry::Polygon(vec![square_ring()]))];
    let mut drawn = r.new_buffer();
    r.render_to_buffer(&vp, &features, &mut drawn);
    // the vertices fall at columns 1 and 8, and (rows counted from the top) rows 9 and 2
    let mut expected = r.new_buffer();
    r.draw_line(1, 9, 8, 9, &mut expected);
    r.draw_line(8, 9, 8, 2, &mut expected);
    r.draw_line(8, 2, 1, 2, &mut expected);
    r.draw_line(1, 2, 1, 9, &mut expected);
    assert_eq!(drawn, expected);
}

#[test]
fn polygon_edges_of_an_unmapped_vertex_are_skipped() {
    let r = AsciiRenderer { width: 10, height: 10 };
    let vp = bbox(0, 0, 10, 10);
    let mut off = square_ring();
    off[2] = Some(pt(50, 50));
    let mut drawn = r.new_buffer();
    r.render_to_buffer(&vp, &vec![Some(Geometry::Polygon(vec![off]))], &mut drawn);
    let mut expected = r.new_buffer();
    r.draw_line(1, 9, 8, 9, &mut expected);
    r.draw_line(1, 2, 1, 9, &mut expected);
    assert_eq!(drawn, expected);

    let mut missing = square_ring();
    missing[2] = None;
    let mut drawn = r.new_buffer();
    r.render_to_buffer(&vp, &vec![Some(Geometry::Polygon(vec![missing]))], &mut drawn);
    assert_eq!(drawn, expected);
}

#[test]
fn multipolygon_draws_every_ring() {
    let r = AsciiRenderer { width: 10, height: 10 };
    let vp = bbox(0, 0, 10, 10);
    let small = vec![Some(pt(3, 3)), Some(pt(5, 3)), Some(pt(5, 5))];
    let features = vec![Some(Geometry::MultiPolygon(vec![vec![square_ring()], vec![small.clone()]]))];
    let mut drawn = r.new_buffer();
    r.render_to_buffer(&vp, &features, &mut drawn);
    let mut expected = r.new_buffer();
    r.render_to_buffer(&vp, &vec![Some(Geometry::Polygon(vec![square_ring(), small]))], &mut expected);
    assert_eq!(drawn, expected);
    assert_eq!(touched(&drawn, '+').len(), 28 + 6);
}

#[test]
fn points_and_line_strings_plot_glyphs() {
    let r = AsciiRenderer { width: 4, height: 4 };
    let vp = bbox(0, 0, 40, 40);
    let features = vec![
        Some(Geometry::Point(Some(pt(5, 35)))),
        None,
        Some(Geometry::LineString(vec![Some(pt(15, 5)), None, Some(pt(35, 5)), Some(pt(99, 5))])),
        Some(Geometry::Point(None)),
    ];
    let mut b = r.new_buffer();
    r.render_to_buffer(&vp, &features, &mut b);
    assert_eq!(touched(&b, '*'), vec![(0, 0)]);
    // the vertices are not joined
    assert_eq!(touched(&b, '#'), vec![(1, 3), (3, 3)]);
    assert_eq!(touched(&b, '.').len(), 13);
}

#[test]
fn later_features_overwrite_earlier_ones() {
    let r = AsciiRenderer { width: 4, height: 4 };
    let vp = bbox(0, 0, 40, 40);
    let features = vec![
        Some(Geometry::LineString(vec![Some(pt(15, 15))])),
        Some(Geometry::Point(Some(pt(15, 15)))),
    ];
    let mut b = r.new_buffer();
    r.render_to_buffer(&vp, &features, &mut b);
    assert_eq!(b[2][1], '*');
    assert_eq!(touched(&b, '#'), vec![]);
}

#[test]
fn empty_input_draws_nothing() {
    let r = AsciiRenderer { width: 5, height: 5 };
    let vp = bbox(0, 0, 50, 50);
    let features = vec![
        Some(Geometry::LineString(vec![])),
        Some(Geometry::Polygon(vec![vec![]])),
        Some(Geometry::MultiPolygon(vec![])),
    ];
    let mut b = r.new_buffer();
    r.render_to_buffer(&vp, &features, &mut b);
    assert_eq!(b, r.new_buffer());
    r.render_to_buffer(&vp, &vec![], &mut b);
    assert_eq!(b, r.new_buffer());
}

#[test]
fn one_vertex_ring_closes_on_itself() {
    let r = AsciiRenderer { width: 5, height: 5 };
    let vp = bbox(0, 0, 50, 50);
    let features = vec![Some(Geometry::Polygon(vec![vec![Some(pt(25, 25))]]))];
    let mut b = r.new_buffer();
    r.render_to_buffer(&vp, &features, &mut b);
    assert_eq!(touched(&b, '+'), vec![(2, 2)]);
}
