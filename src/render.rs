//! Mapping of projected points to cells of the grid, and the drawing of
//! features into a character buffer.
use vstd::prelude::*;

use crate::grid::{blank_grid, grid, grid_shape, lemma_paint_one, lemma_paint_outside, lemma_painted_shape, painted};
use crate::line::{abs, segment_cells, lemma_err_shift, lemma_err_x_done, lemma_err_y_done, line_cells, step_dir, trace_cell, trace_open, trace_prefix, trace_state};
use crate::map::{viewport_of, ViewState};
use crate::{BoundingBox, Geometry, Point};

verus! {

/// The cell `(column, row)` of a grid of `width` × `height` cells showing
/// the box `vp` at which the point `p` falls, if any.
///
/// A cell spans `(max.x - min.x) / width` units across and
/// `(max.y - min.y) / height` units up, so a point at offset `d` from the
/// box's center falls `d / resolution` cells from the grid's middle. Counted
/// from the left edge and (rows running downwards) from the top edge, that is
/// the column `(p.x - min.x) * width / (max.x - min.x)` and the row
/// `(max.y - p.y) * height / (max.y - min.y)`, rounded towards zero. A point
/// outside the box, a box of no width or height, and a cell beyond the grid
/// give no cell.
pub open spec fn screen_cell(vp: BoundingBox, width: int, height: int, p: Point) -> Option<(int, int)> {
    if !vp.contains(p) || vp.max.x == vp.min.x || vp.max.y == vp.min.y {
        None
    } else {
        let col = (p.x - vp.min.x) * width / (vp.max.x - vp.min.x);
        let row = (vp.max.y - p.y) * height / (vp.max.y - vp.min.y);
        if col < width && row < height {
            Some((col, row))
        } else {
            None
        }
    }
}

/// `screen_cell` with a missing point giving no cell.
pub open spec fn screen_cell_of(vp: BoundingBox, width: int, height: int, p: Option<Point>) -> Option<(int, int)> {
    match p {
        Some(q) => screen_cell(vp, width, height, q),
        None => None,
    }
}

/// A cell of the grid as plain integers.
pub open spec fn cell_view(c: Option<(usize, usize)>) -> Option<(int, int)> {
    match c {
        Some(v) => Some((v.0 as int, v.1 as int)),
        None => None,
    }
}

/// `c`, if there is one, lies in a grid of `width` × `height` cells.
pub open spec fn fits(c: Option<(usize, usize)>, width: usize, height: usize) -> bool {
    match c {
        Some(v) => v.0 < width && v.1 < height,
        None => true,
    }
}

/// `g` with `glyph` at `cell`, if there is one.
pub open spec fn plot(g: Seq<Seq<char>>, cell: Option<(int, int)>, glyph: char) -> Seq<Seq<char>> {
    match cell {
        Some(c) => painted(g, set![c], glyph),
        None => g,
    }
}

/// `g` with `glyph` at the cell of each of the first `n` points of `pts`, in order.
pub open spec fn plot_points(
    g: Seq<Seq<char>>,
    vp: BoundingBox,
    width: int,
    height: int,
    pts: Seq<Option<Point>>,
    glyph: char,
    n: int,
) -> Seq<Seq<char>>
    decreases n,
{
    if n <= 0 {
        g
    } else {
        plot(plot_points(g, vp, width, height, pts, glyph, n - 1), screen_cell_of(vp, width, height, pts[n - 1]), glyph)
    }
}

/// `g` with the line from the cell of `a` to the cell of `b`, when both
/// have a cell; else `g`.
pub open spec fn segment(
    g: Seq<Seq<char>>,
    vp: BoundingBox,
    width: int,
    height: int,
    a: Option<Point>,
    b: Option<Point>,
) -> Seq<Seq<char>> {
    match (screen_cell_of(vp, width, height, a), screen_cell_of(vp, width, height, b)) {
        (Some(c0), Some(c1)) => painted(g, segment_cells(c0.0, c0.1, c1.0, c1.1), '+'),
        _ => g,
    }
}

/// `g` with the first `n` edges of the closed ring `ring`: edge `i` joins
/// vertex `i` to vertex `i + 1`, and the last one returns to vertex 0.
pub open spec fn ring_edges(
    g: Seq<Seq<char>>,
    vp: BoundingBox,
    width: int,
    height: int,
    ring: Seq<Option<Point>>,
    n: int,
) -> Seq<Seq<char>>
    decreases n,
{
    if n <= 0 {
        g
    } else {
        segment(ring_edges(g, vp, width, height, ring, n - 1), vp, width, height, ring[n - 1], ring[n % (ring.len() as int)])
    }
}

/// `g` with every edge of the first `n` rings of `rings`.
pub open spec fn rings_drawn(
    g: Seq<Seq<char>>,
    vp: BoundingBox,
    width: int,
    height: int,
    rings: Seq<Vec<Option<Point>>>,
    n: int,
) -> Seq<Seq<char>>
    decreases n,
{
    if n <= 0 {
        g
    } else {
        let ring = rings[n - 1]@;
        ring_edges(rings_drawn(g, vp, width, height, rings, n - 1), vp, width, height, ring, ring.len() as int)
    }
}

/// `g` with every ring of the first `n` polygons of `polys`.
pub open spec fn polygons_drawn(
    g: Seq<Seq<char>>,
    vp: BoundingBox,
    width: int,
    height: int,
    polys: Seq<Vec<Vec<Option<Point>>>>,
    n: int,
) -> Seq<Seq<char>>
    decreases n,
{
    if n <= 0 {
        g
    } else {
        let rings = polys[n - 1]@;
        rings_drawn(polygons_drawn(g, vp, width, height, polys, n - 1), vp, width, height, rings, rings.len() as int)
    }
}

/// `g` with `geom` drawn over it.
pub open spec fn geometry_drawn(g: Seq<Seq<char>>, vp: BoundingBox, width: int, height: int, geom: Geometry) -> Seq<Seq<char>> {
    match geom {
        Geometry::Point(p) => plot(g, screen_cell_of(vp, width, height, p), '*'),
        Geometry::LineString(pts) => plot_points(g, vp, width, height, pts@, '#', pts@.len() as int),
        Geometry::Polygon(rings) => rings_drawn(g, vp, width, height, rings@, rings@.len() as int),
        Geometry::MultiPolygon(polys) => polygons_drawn(g, vp, width, height, polys@, polys@.len() as int),
    }
}

/// `g` with the first `n` features drawn over it in order; a feature without
/// geometry draws nothing.
pub open spec fn features_drawn(
    g: Seq<Seq<char>>,
    vp: BoundingBox,
    width: int,
    height: int,
    features: Seq<Option<Geometry>>,
    n: int,
) -> Seq<Seq<char>>
    decreases n,
{
    if n <= 0 {
        g
    } else {
        let prev = features_drawn(g, vp, width, height, features, n - 1);
        match features[n - 1] {
            Some(geom) => geometry_drawn(prev, vp, width, height, geom),
            None => prev,
        }
    }
}

/// `(m * n) / (2 * m) == n / 2` for `m > 0`.
proof fn lemma_half_scaled(m: int, n: int)
    requires
        m > 0,
        n >= 0,
    ensures
        (m * n) / (2 * m) == n / 2,
{
    let q = n / 2;
    let r = n % 2;
    assert(m * n == q * (2 * m) + m * r && 0 <= m * r < 2 * m) by (nonlinear_arith)
        requires m > 0, n == 2 * q + r, 0 <= r < 2;
    vstd::arithmetic::div_mod::lemma_fundamental_div_mod_converse_div(m * n, 2 * m, q, m * r);
}

/// The point at the center of a box whose sides have even lengths falls in
/// the middle cell `(width / 2, height / 2)` of any grid that shows the box.
pub proof fn lemma_center_maps_to_middle(vp: BoundingBox, width: int, height: int)
    requires
        vp.min.x < vp.max.x,
        vp.min.y < vp.max.y,
        (vp.max.x - vp.min.x) % 2 == 0,
        (vp.max.y - vp.min.y) % 2 == 0,
        width >= 1,
        height >= 1,
    ensures
        screen_cell(vp, width, height, box_center(vp)) == Some((width / 2, height / 2)),
{
    let c = box_center(vp);
    let mx = (vp.max.x - vp.min.x) / 2;
    let my = (vp.max.y - vp.min.y) / 2;
    assert(c.x - vp.min.x == mx && vp.max.x - vp.min.x == 2 * mx);
    assert(vp.max.y - c.y == my && vp.max.y - vp.min.y == 2 * my);
    lemma_half_scaled(mx, width);
    lemma_half_scaled(my, height);
}

/// The center of a box whose sides have even lengths.
pub open spec fn box_center(vp: BoundingBox) -> Point {
    Point { x: (vp.min.x + (vp.max.x - vp.min.x) / 2) as i32, y: (vp.min.y + (vp.max.y - vp.min.y) / 2) as i32 }
}

/// A row of `width` background glyphs.
fn blank_row(width: usize) -> (r: Vec<char>)
    ensures
        r@ == Seq::new(width as nat, |i: int| '.'),
{
    let mut row: Vec<char> = Vec::new();
    let mut c: usize = 0;
    while c < width
        invariant
            c <= width,
            row@ == Seq::new(c as nat, |i: int| '.'),
        decreases width - c,
    {
        row.push('.');
        c = c + 1;
        assert(row@ =~= Seq::new(c as nat, |i: int| '.'));
    }
    row
}

/// `offset * count / span`, for `0 <= offset <= span`.
fn scale_offset(offset: i64, count: usize, span: i64) -> (r: usize)
    requires
        0 <= offset <= span,
        0 < span,
        span <= u32::MAX,
    ensures
        r as int == offset as int * count as int / span as int,
{
    let o = offset as i128;
    let n = count as i128;
    proof {
        assert(0 <= o * n <= span * n) by (nonlinear_arith)
            requires 0 <= o <= span, 0 <= n;
        assert(span * n <= u32::MAX * usize::MAX) by (nonlinear_arith)
            requires 0 < span <= u32::MAX, 0 <= n <= usize::MAX;
        vstd::arithmetic::div_mod::lemma_div_is_ordered(o * n, span * n, span as int);
        vstd::arithmetic::mul::lemma_mul_is_commutative(span as int, n as int);
        vstd::arithmetic::div_mod::lemma_div_by_multiple(n as int, span as int);
    }
    let q = (o * n) / span as i128;
    q as usize
}

/// A renderer onto a character grid of `width` columns and `height` rows.
pub struct AsciiRenderer {
    pub width: usize,
    pub height: usize,
}

impl AsciiRenderer {
    pub open spec fn w(&self) -> int {
        self.width as int
    }

    pub open spec fn h(&self) -> int {
        self.height as int
    }

    /// The cell at which the projected point `p` falls, when the grid shows
    /// the box `viewport`; `None` for a point outside it.
    pub fn map_to_screen_coords(&self, viewport: &BoundingBox, p: Point) -> (r: Option<(usize, usize)>)
        ensures
            cell_view(r) == screen_cell(*viewport, self.width as int, self.height as int, p),
            fits(r, self.width, self.height),
            !viewport.contains(p) ==> r is None,
    {
        let vp = *viewport;
        if p.x < vp.min.x || p.x > vp.max.x || p.y < vp.min.y || p.y > vp.max.y {
            return None;
        }
        if vp.max.x == vp.min.x || vp.max.y == vp.min.y {
            return None;
        }
        let col = scale_offset(p.x as i64 - vp.min.x as i64, self.width, vp.max.x as i64 - vp.min.x as i64);
        let row = scale_offset(vp.max.y as i64 - p.y as i64, self.height, vp.max.y as i64 - vp.min.y as i64);
        if col < self.width && row < self.height {
            Some((col, row))
        } else {
            None
        }
    }

    /// The cell of `p`, a vertex that may be missing.
    fn cell_of(&self, viewport: &BoundingBox, p: Option<Point>) -> (r: Option<(usize, usize)>)
        ensures
            cell_view(r) == screen_cell_of(*viewport, self.width as int, self.height as int, p),
            fits(r, self.width, self.height),
    {
        match p {
            Some(q) => self.map_to_screen_coords(viewport, q),
            None => None,
        }
    }

    /// A fresh grid of `height` rows of `width` background glyphs `'.'`.
    pub fn new_buffer(&self) -> (r: Vec<Vec<char>>)
        ensures
            grid(&r) == blank_grid(self.width as int, self.height as int),
            grid_shape(grid(&r), self.width as int, self.height as int),
    {
        let mut rows: Vec<Vec<char>> = Vec::new();
        let mut r: usize = 0;
        while r < self.height
            invariant
                r <= self.height,
                rows@.len() == r,
                grid(&rows) == Seq::new(r as nat, |i: int| Seq::new(self.width as nat, |j: int| '.')),
            decreases self.height - r,
        {
            let row = blank_row(self.width);
            let ghost prev = rows@;
            let ghost prev_grid = grid(&rows);
            rows.push(row);
            r = r + 1;
            assert(rows@ == prev.push(row));
            assert forall|i: int| 0 <= i < r implies #[trigger] grid(&rows)[i] == Seq::new(self.width as nat, |j: int| '.') by {
                if i < r - 1 {
                    assert(rows@[i] == prev[i]);
                    assert(prev_grid[i] == prev[i]@);
                }
            }
            assert(grid(&rows) =~~= Seq::new(r as nat, |i: int| Seq::new(self.width as nat, |j: int| '.')));
        }
        rows
    }

    /// Writes `glyph` at `cell`, if there is one.
    fn put_glyph(&self, cell: Option<(usize, usize)>, glyph: char, buffer: &mut Vec<Vec<char>>)
        requires
            grid_shape(grid(old(buffer)), self.width as int, self.height as int),
            fits(cell, self.width, self.height),
        ensures
            grid(final(buffer)) == plot(grid(old(buffer)), cell_view(cell), glyph),
            grid_shape(grid(final(buffer)), self.width as int, self.height as int),
    {
        if let Some((x, y)) = cell {
            assert(grid(buffer)[y as int].len() == self.width);
            buffer[y][x] = glyph;
            assert(grid(buffer) =~~= painted(grid(old(buffer)), set![(x as int, y as int)], glyph));
        }
    }

    /// Writes `glyph` at the cell of each point of `pts`, in order.
    fn plot_all(&self, viewport: &BoundingBox, pts: &Vec<Option<Point>>, glyph: char, buffer: &mut Vec<Vec<char>>)
        requires
            grid_shape(grid(old(buffer)), self.width as int, self.height as int),
        ensures
            grid(final(buffer)) == plot_points(
                grid(old(buffer)), *viewport, self.width as int, self.height as int, pts@, glyph, pts@.len() as int),
            grid_shape(grid(final(buffer)), self.width as int, self.height as int),
    {
        let mut i: usize = 0;
        while i < pts.len()
            invariant
                i <= pts@.len(),
                grid_shape(grid(buffer), self.width as int, self.height as int),
                grid(buffer) == plot_points(
                    grid(old(buffer)), *viewport, self.width as int, self.height as int, pts@, glyph, i as int),
            decreases pts@.len() - i,
        {
            let cell = self.cell_of(viewport, pts[i]);
            self.put_glyph(cell, glyph, buffer);
            i = i + 1;
        }
    }

    /// Draws the edges of the closed ring `ring`: an edge of which a vertex
    /// has no cell is left out whole.
    fn draw_ring(&self, viewport: &BoundingBox, ring: &Vec<Option<Point>>, buffer: &mut Vec<Vec<char>>)
        requires
            grid_shape(grid(old(buffer)), self.width as int, self.height as int),
        ensures
            grid(final(buffer)) == ring_edges(grid(old(buffer)), *viewport, self.w(), self.h(), ring@, ring@.len() as int),
            grid_shape(grid(final(buffer)), self.width as int, self.height as int),
    {
        let n = ring.len();
        let mut i: usize = 0;
        while i < n
            invariant
                n == ring@.len(),
                i <= n,
                grid_shape(grid(buffer), self.width as int, self.height as int),
                grid(buffer) == ring_edges(
                    grid(old(buffer)), *viewport, self.width as int, self.height as int, ring@, i as int),
            decreases n - i,
        {
            let start = self.cell_of(viewport, ring[i]);
            let end = self.cell_of(viewport, ring[(i + 1) % n]);
            if let (Some((x0, y0)), Some((x1, y1))) = (start, end) {
                let ghost before = grid(buffer);
                self.draw_line(x0, y0, x1, y1, buffer);
                proof {
                    let cells = segment_cells(x0 as int, y0 as int, x1 as int, y1 as int);
                    lemma_painted_shape(before, cells, '+', self.w(), self.h());
                }
            }
            i = i + 1;
        }
    }

    /// Draws every ring of `rings`, in order.
    fn draw_rings(&self, viewport: &BoundingBox, rings: &Vec<Vec<Option<Point>>>, buffer: &mut Vec<Vec<char>>)
        requires
            grid_shape(grid(old(buffer)), self.w(), self.h()),
        ensures
            grid(final(buffer)) == rings_drawn(grid(old(buffer)), *viewport, self.w(), self.h(), rings@, rings@.len() as int),
            grid_shape(grid(final(buffer)), self.w(), self.h()),
    {
        let mut i: usize = 0;
        while i < rings.len()
            invariant
                i <= rings@.len(),
                grid_shape(grid(buffer), self.w(), self.h()),
                grid(buffer) == rings_drawn(grid(old(buffer)), *viewport, self.w(), self.h(), rings@, i as int),
            decreases rings@.len() - i,
        {
            self.draw_ring(viewport, &rings[i], buffer);
            i = i + 1;
        }
    }

    /// Draws every polygon of `polys`, in order.
    fn draw_polygons(&self, viewport: &BoundingBox, polys: &Vec<Vec<Vec<Option<Point>>>>, buffer: &mut Vec<Vec<char>>)
        requires
            grid_shape(grid(old(buffer)), self.w(), self.h()),
        ensures
            grid(final(buffer)) == polygons_drawn(grid(old(buffer)), *viewport, self.w(), self.h(), polys@, polys@.len() as int),
            grid_shape(grid(final(buffer)), self.w(), self.h()),
    {
        let mut i: usize = 0;
        while i < polys.len()
            invariant
                i <= polys@.len(),
                grid_shape(grid(buffer), self.w(), self.h()),
                grid(buffer) == polygons_drawn(grid(old(buffer)), *viewport, self.w(), self.h(), polys@, i as int),
            decreases polys@.len() - i,
        {
            self.draw_rings(viewport, &polys[i], buffer);
            i = i + 1;
        }
    }

    /// Draws one feature's geometry.
    fn draw_geometry(&self, viewport: &BoundingBox, geom: &Geometry, buffer: &mut Vec<Vec<char>>)
        requires
            grid_shape(grid(old(buffer)), self.w(), self.h()),
        ensures
            grid(final(buffer)) == geometry_drawn(grid(old(buffer)), *viewport, self.w(), self.h(), *geom),
            grid_shape(grid(final(buffer)), self.w(), self.h()),
    {
        match geom {
            Geometry::Point(p) => {
                let cell = self.cell_of(viewport, *p);
                self.put_glyph(cell, '*', buffer);
            },
            Geometry::LineString(pts) => self.plot_all(viewport, pts, '#', buffer),
            Geometry::Polygon(rings) => self.draw_rings(viewport, rings, buffer),
            Geometry::MultiPolygon(polys) => self.draw_polygons(viewport, polys, buffer),
        }
    }

    /// Draws `features` over `buffer` in order, as the grid shows the box
    /// `viewport`: a point as `'*'`, each vertex of a line string as `'#'`,
    /// each edge of a polygon's rings as a line of `'+'` when both its ends
    /// fall in the grid. A later glyph replaces an earlier one.
    pub fn render_to_buffer(&self, viewport: &BoundingBox, features: &Vec<Option<Geometry>>, buffer: &mut Vec<Vec<char>>)
        requires
            grid_shape(grid(old(buffer)), self.w(), self.h()),
        ensures
            grid(final(buffer)) == features_drawn(grid(old(buffer)), *viewport, self.w(), self.h(), features@, features@.len() as int),
            grid_shape(grid(final(buffer)), self.w(), self.h()),
    {
        let mut i: usize = 0;
        while i < features.len()
            invariant
                i <= features@.len(),
                grid_shape(grid(buffer), self.w(), self.h()),
                grid(buffer) == features_drawn(grid(old(buffer)), *viewport, self.w(), self.h(), features@, i as int),
            decreases features@.len() - i,
        {
            match &features[i] {
                Some(geom) => self.draw_geometry(viewport, geom, buffer),
                None => {},
            }
            i = i + 1;
        }
    }

    /// One frame: the viewport of `view` over `world` (the projected valid
    /// domain), with `center` the projected center of `view`, and `features`
    /// drawn over a blank grid.
    pub fn render_frame(
        &self,
        view: &ViewState,
        world: BoundingBox,
        center: Point,
        features: &Vec<Option<Geometry>>,
    ) -> (r: Vec<Vec<char>>)
        requires
            world.wf(),
        ensures
            grid(&r) == features_drawn(blank_grid(self.w(), self.h()), viewport_of(world, center, view.zoom as int), self.w(), self.h(), features@, features@.len() as int),
            grid_shape(grid(&r), self.w(), self.h()),
    {
        let viewport = view.calculate_viewport(world, center);
        let mut buffer = self.new_buffer();
        self.render_to_buffer(&viewport, features, &mut buffer);
        buffer
    }

    /// Draws the segment joining cells `(x0, y0)` and `(x1, y1)` with `'+'`,
    /// by Bresenham's algorithm run from the lower end, so that both orders
    /// of the ends give the same cells. Cells outside the grid are skipped.
    pub fn draw_line(&self, x0: usize, y0: usize, x1: usize, y1: usize, buffer: &mut Vec<Vec<char>>)
        requires
            grid_shape(grid(old(buffer)), self.width as int, self.height as int),
        ensures
            grid(final(buffer)) == painted(
                grid(old(buffer)),
                segment_cells(x0 as int, y0 as int, x1 as int, y1 as int),
                '+',
            ),
    {
        if y0 < y1 || (y0 == y1 && x0 <= x1) {
            self.trace_line(x0, y0, x1, y1, buffer);
        } else {
            self.trace_line(x1, y1, x0, y0, buffer);
        }
    }

    /// Paints with `'+'` the cells that Bresenham's tracer visits from cell
    /// `(x0, y0)` to cell `(x1, y1)`, skipping those outside the grid.
    fn trace_line(&self, x0: usize, y0: usize, x1: usize, y1: usize, buffer: &mut Vec<Vec<char>>)
        requires
            grid_shape(grid(old(buffer)), self.width as int, self.height as int),
        ensures
            grid(final(buffer)) == painted(
                grid(old(buffer)),
                line_cells(x0 as int, y0 as int, x1 as int, y1 as int),
                '+',
            ),
    {
        let ghost g0 = grid(buffer);
        let ghost gx0 = x0 as int;
        let ghost gy0 = y0 as int;
        let ghost gx1 = x1 as int;
        let ghost gy1 = y1 as int;
        let dx: i128 = if x0 < x1 { x1 as i128 - x0 as i128 } else { x0 as i128 - x1 as i128 };
        let sx: i128 = if x0 < x1 { 1 } else { -1 };
        let dy: i128 = if y0 < y1 { y0 as i128 - y1 as i128 } else { y1 as i128 - y0 as i128 };
        let sy: i128 = if y0 < y1 { 1 } else { -1 };
        let mut err: i128 = dx + dy;
        let mut x: i128 = x0 as i128;
        let mut y: i128 = y0 as i128;
        // i and j count the steps taken along x and along y, k the iterations;
        // the error term is then dx * (j + 1) - |dy| * (i + 1), which keeps
        // each axis from stepping past its end
        let ghost mut i: int = 0;
        let ghost mut j: int = 0;
        let ghost mut k: nat = 0;
        let ghost big_dy: int = -dy;
        assert(trace_prefix(gx0, gy0, gx1, gy1, 0) =~= Set::empty());
        assert(painted(g0, Set::empty(), '+') =~~= g0);
        assert(dx * (0 + 1) - big_dy * (0 + 1) == dx + dy) by (nonlinear_arith)
            requires big_dy == -dy;
        loop
            invariant_except_break
                grid(buffer) == painted(g0, trace_prefix(gx0, gy0, gx1, gy1, k), '+'),
            invariant
                g0 == grid(old(buffer)),
                gx0 == x0 as int,
                gy0 == y0 as int,
                gx1 == x1 as int,
                gy1 == y1 as int,
                grid_shape(g0, self.width as int, self.height as int),
                dx == abs(gx1 - gx0),
                dy == -abs(gy1 - gy0),
                sx == step_dir(gx0, gx1),
                sy == step_dir(gy0, gy1),
                big_dy == -dy,
                0 <= dx <= usize::MAX,
                0 <= big_dy <= usize::MAX,
                0 <= i <= dx,
                0 <= j <= big_dy,
                x == if gx0 < gx1 { gx0 + i } else { gx0 - i },
                y == if gy0 < gy1 { gy0 + j } else { gy0 - j },
                err == dx * (j + 1) - big_dy * (i + 1),
                -3 * big_dy <= 2 * err <= 3 * dx,
                (x as int, y as int, err as int) == trace_state(gx0, gy0, gx1, gy1, k),
                trace_open(gx0, gy0, gx1, gy1, k),
            ensures
                grid(buffer) == painted(g0, line_cells(gx0, gy0, gx1, gy1), '+'),
            decreases (dx - i) + (big_dy - j),
        {
            proof {
                let cells = trace_prefix(gx0, gy0, gx1, gy1, k);
                let here = trace_cell(gx0, gy0, gx1, gy1, k);
                assert(here == (x as int, y as int));
                assert forall|c: (int, int)| trace_prefix(gx0, gy0, gx1, gy1, k + 1).contains(c) implies
                    cells.insert(here).contains(c) by {
                    let m = choose|m: nat| m < k + 1 && c == #[trigger] trace_cell(gx0, gy0, gx1, gy1, m);
                    if m < k {
                        assert(cells.contains(c));
                    }
                }
                assert forall|c: (int, int)| cells.insert(here).contains(c) implies
                    trace_prefix(gx0, gy0, gx1, gy1, k + 1).contains(c) by {
                    if c != here {
                        let m = choose|m: nat| m < k && c == #[trigger] trace_cell(gx0, gy0, gx1, gy1, m);
                        assert(m < k + 1);
                    }
                }
                assert(trace_prefix(gx0, gy0, gx1, gy1, k + 1) =~= cells.insert((x as int, y as int)));
                if 0 <= y < g0.len() && 0 <= x < g0[y as int].len() {
                    lemma_paint_one(g0, cells, '+', x as int, y as int);
                } else {
                    lemma_paint_outside(g0, cells, '+', x as int, y as int);
                }
            }
            if x >= 0 && x < self.width as i128 && y >= 0 && y < self.height as i128 {
                buffer[y as usize][x as usize] = '+';
                assert(grid(buffer) =~~= painted(g0, trace_prefix(gx0, gy0, gx1, gy1, k + 1), '+'));
            } else {
                assert(grid(buffer) =~~= painted(g0, trace_prefix(gx0, gy0, gx1, gy1, k + 1), '+'));
            }
            if x == x1 as i128 && y == y1 as i128 {
                // the cells painted so far are exactly those of the line
                proof {
                    assert(x as int == gx1 && y as int == gy1);
                    assert(trace_cell(gx0, gy0, gx1, gy1, k) == (gx1, gy1));
                    assert(line_cells(gx0, gy0, gx1, gy1) =~= trace_prefix(gx0, gy0, gx1, gy1, k + 1)) by {
                        assert forall|c: (int, int)| line_cells(gx0, gy0, gx1, gy1).contains(c) implies
                            trace_prefix(gx0, gy0, gx1, gy1, k + 1).contains(c) by {
                            let m = choose|m: nat| trace_open(gx0, gy0, gx1, gy1, m) && c == #[trigger] trace_cell(gx0, gy0, gx1, gy1, m);
                            if m > k {
                                assert(trace_cell(gx0, gy0, gx1, gy1, k) != (gx1, gy1));
                            }
                        }
                        assert forall|c: (int, int)| trace_prefix(gx0, gy0, gx1, gy1, k + 1).contains(c) implies
                            line_cells(gx0, gy0, gx1, gy1).contains(c) by {
                            let m = choose|m: nat| m < k + 1 && c == #[trigger] trace_cell(gx0, gy0, gx1, gy1, m);
                            assert(trace_open(gx0, gy0, gx1, gy1, m));
                        }
                    }
                }
                break;
            }
            proof {
                if i == dx && j < big_dy {
                    lemma_err_x_done(dx as int, big_dy, j);
                }
                if j == big_dy && i < dx {
                    lemma_err_y_done(dx as int, big_dy, i);
                }
                lemma_err_shift(dx as int, big_dy, i, j);
                lemma_err_shift(dx as int, big_dy, i + 1, j);
            }
            let ghost k0 = k;
            let e2 = 2 * err;
            if e2 >= dy {
                err = err + dy;
                x = x + sx;
                proof { i = i + 1; }
            }
            if e2 <= dx {
                err = err + dx;
                y = y + sy;
                proof { j = j + 1; }
            }
            proof {
                k = k + 1;
                assert(trace_open(gx0, gy0, gx1, gy1, k)) by {
                    assert(trace_cell(gx0, gy0, gx1, gy1, k0) != (gx1, gy1));
                }
            }
        }
    }
}

} // verus!
