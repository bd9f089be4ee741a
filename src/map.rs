//! The view state (center and zoom), the commands that change it, and the
//! visible box of the plane that it selects.
use vstd::prelude::*;
use vstd::arithmetic::div_mod::{lemma_basic_div, lemma_div_denominator, lemma_div_is_ordered};
use vstd::arithmetic::power2::{pow2, lemma_pow2_pos, lemma_pow2_unfold, lemma_pow2_strictly_increases};

use crate::{BoundingBox, LngLat, Point};

verus! {

/// `v` moved into `[lo, hi]`.
pub open spec fn clamp(v: int, lo: int, hi: int) -> int {
    if v < lo {
        lo
    } else if v > hi {
        hi
    } else {
        v
    }
}

/// The extent of one axis that is visible at `zoom`, when `full` is the
/// extent of the whole world along it: each zoom level halves it.
pub open spec fn visible_span(full: int, zoom: int) -> int {
    if zoom >= 0 {
        full / (pow2(zoom as nat) as int)
    } else {
        full * (pow2((-zoom) as nat) as int)
    }
}

/// The visible interval of one axis whose world interval is `[lo, hi]`:
/// `visible_span` around the center `c` (moved into the world first), cut
/// to the world.
pub open spec fn visible_range(lo: int, hi: int, c: int, zoom: int) -> (int, int) {
    let cc = clamp(c, lo, hi);
    let half = visible_span(hi - lo, zoom) / 2;
    (if cc - half < lo { lo } else { cc - half }, if cc + half > hi { hi } else { cc + half })
}

/// The viewport box for `world`, a projected `center` and `zoom`.
pub open spec fn viewport_of(world: BoundingBox, center: Point, zoom: int) -> BoundingBox {
    let xs = visible_range(world.min.x as int, world.max.x as int, center.x as int, zoom);
    let ys = visible_range(world.min.y as int, world.max.y as int, center.y as int, zoom);
    BoundingBox { min: Point { x: xs.0 as i32, y: ys.0 as i32 }, max: Point { x: xs.1 as i32, y: ys.1 as i32 } }
}

/// At a higher zoom level the visible span of an axis is strictly smaller,
/// as long as it is not yet below one unit.
pub proof fn lemma_zoom_shrinks_span(full: int, z1: int, z2: int)
    requires
        full >= 0,
        0 <= z1 < z2,
        visible_span(full, z1) >= 1,
    ensures
        visible_span(full, z2) < visible_span(full, z1),
{
    let p1 = pow2(z1 as nat) as int;
    let p2 = pow2((z1 + 1) as nat) as int;
    lemma_pow2_pos(z1 as nat);
    lemma_pow2_pos((z1 + 1) as nat);
    lemma_pow2_pos(z2 as nat);
    lemma_pow2_unfold((z1 + 1) as nat);
    assert(p1 * 2 == p2);
    lemma_div_denominator(full, p1, 2);
    // halving a positive span makes it strictly smaller
    assert(full / p2 < full / p1);
    if z2 > z1 + 1 {
        lemma_pow2_strictly_increases((z1 + 1) as nat, z2 as nat);
        vstd::arithmetic::div_mod::lemma_div_is_ordered_by_denominator(full, p2, pow2(z2 as nat) as int);
    }
}

/// Raising the zoom level, with the same center, never shows more: the box
/// at zoom `z2` lies inside the box at the lower zoom `z1`.
pub proof fn lemma_zoom_nests_viewport(world: BoundingBox, center: Point, z1: int, z2: int)
    requires
        world.wf(),
        0 <= z1 <= z2,
    ensures
        viewport_of(world, center, z2).within(viewport_of(world, center, z1)),
{
    lemma_range_nested(world.min.x as int, world.max.x as int, center.x as int, z1, z2);
    lemma_range_nested(world.min.y as int, world.max.y as int, center.y as int, z1, z2);
}

proof fn lemma_range_nested(lo: int, hi: int, c: int, z1: int, z2: int)
    requires
        lo <= hi,
        0 <= z1 <= z2,
    ensures
        ({
            let r1 = visible_range(lo, hi, c, z1);
            let r2 = visible_range(lo, hi, c, z2);
            lo <= r1.0 <= r2.0 <= r2.1 <= r1.1 <= hi
        }),
{
    let full = hi - lo;
    lemma_pow2_pos(z1 as nat);
    lemma_pow2_pos(z2 as nat);
    if z1 < z2 {
        lemma_pow2_strictly_increases(z1 as nat, z2 as nat);
    }
    vstd::arithmetic::div_mod::lemma_div_is_ordered_by_denominator(full, pow2(z1 as nat) as int, pow2(z2 as nat) as int);
    vstd::arithmetic::div_mod::lemma_div_pos_is_pos(full, pow2(z2 as nat) as int);
    lemma_div_is_ordered(visible_span(full, z2), visible_span(full, z1), 2);
    vstd::arithmetic::div_mod::lemma_div_pos_is_pos(visible_span(full, z2), 2);
}

/// The span at a higher zoom is at most half the span at a lower one.
proof fn lemma_span_halves(full: int, z1: int, z2: int)
    requires
        full >= 0,
        0 <= z1 < z2,
    ensures
        visible_span(full, z2) <= visible_span(full, z1) / 2,
        0 <= visible_span(full, z2),
        visible_span(full, z1) <= full,
{
    let p1 = pow2(z1 as nat) as int;
    let p2 = pow2((z1 + 1) as nat) as int;
    lemma_pow2_pos(z1 as nat);
    lemma_pow2_pos((z1 + 1) as nat);
    lemma_pow2_pos(z2 as nat);
    lemma_pow2_unfold((z1 + 1) as nat);
    lemma_div_denominator(full, p1, 2);
    vstd::arithmetic::div_mod::lemma_div_is_ordered_by_denominator(full, 1, p1);
    vstd::arithmetic::div_mod::lemma_div_pos_is_pos(full, pow2(z2 as nat) as int);
    if z2 > z1 + 1 {
        lemma_pow2_strictly_increases((z1 + 1) as nat, z2 as nat);
        vstd::arithmetic::div_mod::lemma_div_is_ordered_by_denominator(full, p2, pow2(z2 as nat) as int);
    }
}

proof fn lemma_range_shrinks(lo: int, hi: int, c: int, z1: int, z2: int)
    requires
        lo <= hi,
        0 <= z1 < z2,
        visible_span(hi - lo, z1) >= 2,
    ensures
        ({
            let r1 = visible_range(lo, hi, c, z1);
            let r2 = visible_range(lo, hi, c, z2);
            r2.1 - r2.0 < r1.1 - r1.0
        }),
{
    let full = hi - lo;
    lemma_span_halves(full, z1, z2);
    let s1 = visible_span(full, z1);
    let s2 = visible_span(full, z2);
    lemma_div_is_ordered(s2, s1 / 2, 2);
}

/// Raising the zoom level, with the same center, strictly narrows the
/// visible box along each axis whose visible span at the lower zoom is at
/// least two units (below that the box has no width at either zoom).
pub proof fn lemma_zoom_narrows_viewport(world: BoundingBox, center: Point, z1: int, z2: int)
    requires
        world.wf(),
        0 <= z1 < z2,
    ensures
        visible_span(world.max.x - world.min.x, z1) >= 2 ==> viewport_of(world, center, z2).max.x
            - viewport_of(world, center, z2).min.x < viewport_of(world, center, z1).max.x - viewport_of(world, center, z1).min.x,
        visible_span(world.max.y - world.min.y, z1) >= 2 ==> viewport_of(world, center, z2).max.y
            - viewport_of(world, center, z2).min.y < viewport_of(world, center, z1).max.y - viewport_of(world, center, z1).min.y,
{
    lemma_range_nested(world.min.x as int, world.max.x as int, center.x as int, z1, z2);
    lemma_range_nested(world.min.y as int, world.max.y as int, center.y as int, z1, z2);
    if visible_span(world.max.x - world.min.x, z1) >= 2 {
        lemma_range_shrinks(world.min.x as int, world.max.x as int, center.x as int, z1, z2);
    }
    if visible_span(world.max.y - world.min.y, z1) >= 2 {
        lemma_range_shrinks(world.min.y as int, world.max.y as int, center.y as int, z1, z2);
    }
}

/// A change of the view asked for by the user.
#[derive(Clone, Copy, Debug, PartialEq, Eq, Structural)]
pub enum Command {
    Left,
    Right,
    Up,
    Down,
    ZoomIn,
    ZoomOut,
    Quit,
    Other,
}

/// How far one pan command moves the center, in units of 1e-7 degree (half a degree).
pub const PAN_STEP: i32 = 5_000_000;

/// `v + d`, held to the range of `i32`.
pub open spec fn shifted(v: i32, d: int) -> i32 {
    clamp(v + d, i32::MIN as int, i32::MAX as int) as i32
}

/// The command moves or zooms the view.
pub open spec fn is_view_command(cmd: Command) -> bool {
    !(cmd == Command::Quit || cmd == Command::Other)
}

/// The view after `cmd`: a pan moves the center by `PAN_STEP` along one
/// axis, a zoom command changes the zoom level by one, each held only to the
/// range of `i32`. Other commands leave it as it is.
pub open spec fn view_after(v: ViewState, cmd: Command) -> ViewState {
    let c = v.center;
    match cmd {
        Command::Left => ViewState { center: LngLat { lon: shifted(c.lon, -PAN_STEP), lat: c.lat }, zoom: v.zoom },
        Command::Right => ViewState { center: LngLat { lon: shifted(c.lon, PAN_STEP as int), lat: c.lat }, zoom: v.zoom },
        Command::Up => ViewState { center: LngLat { lon: c.lon, lat: shifted(c.lat, PAN_STEP as int) }, zoom: v.zoom },
        Command::Down => ViewState { center: LngLat { lon: c.lon, lat: shifted(c.lat, -PAN_STEP) }, zoom: v.zoom },
        Command::ZoomIn => ViewState { center: c, zoom: shifted(v.zoom, 1) },
        Command::ZoomOut => ViewState { center: c, zoom: shifted(v.zoom, -1) },
        _ => v,
    }
}

/// `v + d`, held to the range of `i32`.
fn shift(v: i32, d: i32) -> (r: i32)
    ensures
        r == shifted(v, d as int),
{
    let t: i64 = v as i64 + d as i64;
    if t < i32::MIN as i64 {
        i32::MIN
    } else if t > i32::MAX as i64 {
        i32::MAX
    } else {
        t as i32
    }
}

/// A geographic center and a zoom level.
#[derive(Clone, Copy, Debug, PartialEq, Eq, Structural)]
pub struct ViewState {
    pub center: LngLat,
    pub zoom: i32,
}

impl Default for ViewState {
    /// The whole world around longitude 0, latitude 0.
    fn default() -> (r: Self)
        ensures
            r.center == (LngLat { lon: 0, lat: 0 }),
            r.zoom == 0,
    {
        ViewState { center: LngLat { lon: 0, lat: 0 }, zoom: 0 }
    }
}

/// `full / 2^zoom` for `zoom >= 0`, by halving.
fn shrink_span(full: i64, zoom: i32) -> (r: i64)
    requires
        0 <= full,
        0 <= zoom,
    ensures
        r as int == full as int / (pow2(zoom as nat) as int),
{
    let mut span: i64 = full;
    let mut i: i32 = 0;
    proof {
        lemma_pow2_pos(0);
        vstd::arithmetic::power::lemma_pow0(2);
        assert(full as int / 1 == full as int);
    }
    while i < zoom && span > 0
        invariant
            0 <= i <= zoom,
            0 <= full,
            0 <= span,
            span as int == full as int / (pow2(i as nat) as int),
        decreases zoom - i,
    {
        proof {
            lemma_pow2_pos(i as nat);
            lemma_pow2_unfold((i + 1) as nat);
            lemma_div_denominator(full as int, pow2(i as nat) as int, 2);
            assert(pow2(i as nat) as int * 2 == pow2((i + 1) as nat) as int);
        }
        span = span / 2;
        i = i + 1;
    }
    proof {
        if i < zoom {
            lemma_pow2_pos(i as nat);
            lemma_pow2_pos(zoom as nat);
            // full / 2^i == 0 means full < 2^i, which is below 2^zoom
            assert(full < pow2(i as nat)) by {
                if full >= pow2(i as nat) {
                    lemma_div_is_ordered(pow2(i as nat) as int, full as int, pow2(i as nat) as int);
                    vstd::arithmetic::div_mod::lemma_div_by_multiple(1, pow2(i as nat) as int);
                }
            }
            lemma_pow2_strictly_increases(i as nat, zoom as nat);
            lemma_basic_div(full as int, pow2(zoom as nat) as int);
        }
    }
    span
}

/// The visible interval of one world axis `[lo, hi]`.
fn axis_range(lo: i32, hi: i32, c: i32, zoom: i32) -> (r: (i32, i32))
    requires
        lo <= hi,
    ensures
        r.0 as int == visible_range(lo as int, hi as int, c as int, zoom as int).0,
        r.1 as int == visible_range(lo as int, hi as int, c as int, zoom as int).1,
        lo <= r.0 <= r.1 <= hi,
{
    let cc: i32 = if c < lo { lo } else if c > hi { hi } else { c };
    if zoom < 0 {
        proof {
            let k = (-zoom) as nat;
            lemma_pow2_unfold(k);
            lemma_pow2_pos((k - 1) as nat);
            let full = hi as int - lo as int;
            let p = pow2(k) as int;
            assert(full * p / 2 >= full) by (nonlinear_arith)
                requires full >= 0, p >= 2;
        }
        return (lo, hi);
    }
    let span = shrink_span(hi as i64 - lo as i64, zoom);
    let half: i64 = span / 2;
    proof {
        lemma_pow2_pos(zoom as nat);
        vstd::arithmetic::div_mod::lemma_div_is_ordered_by_denominator(hi as int - lo as int, 1, pow2(zoom as nat) as int);
    }
    let a: i64 = cc as i64 - half;
    let b: i64 = cc as i64 + half;
    let rmin: i32 = if a < lo as i64 { lo } else { a as i32 };
    let rmax: i32 = if b > hi as i64 { hi } else { b as i32 };
    (rmin, rmax)
}

impl ViewState {
    pub fn new(center: LngLat, zoom: i32) -> (r: Self)
        ensures
            r.center == center,
            r.zoom == zoom,
    {
        ViewState { center, zoom }
    }

    /// The view after `cmd`.
    pub fn apply(&self, cmd: Command) -> (r: ViewState)
        ensures
            r == view_after(*self, cmd),
    {
        let c = self.center;
        match cmd {
            Command::Left => ViewState { center: LngLat { lon: shift(c.lon, -PAN_STEP), lat: c.lat }, zoom: self.zoom },
            Command::Right => ViewState { center: LngLat { lon: shift(c.lon, PAN_STEP), lat: c.lat }, zoom: self.zoom },
            Command::Up => ViewState { center: LngLat { lon: c.lon, lat: shift(c.lat, PAN_STEP) }, zoom: self.zoom },
            Command::Down => ViewState { center: LngLat { lon: c.lon, lat: shift(c.lat, -PAN_STEP) }, zoom: self.zoom },
            Command::ZoomIn => ViewState { center: c, zoom: shift(self.zoom, 1) },
            Command::ZoomOut => ViewState { center: c, zoom: shift(self.zoom, -1) },
            _ => *self,
        }
    }

    /// The box of the plane that is visible: `world` is the projection of
    /// the projection's valid domain and `center` the projection of
    /// `self.center`. The box lies in `world`, and a center outside `world`
    /// is taken as the nearest point of it.
    pub fn calculate_viewport(&self, world: BoundingBox, center: Point) -> (r: BoundingBox)
        requires
            world.wf(),
        ensures
            r == viewport_of(world, center, self.zoom as int),
            r.wf(),
            r.within(world),
    {
        let (min_x, max_x) = axis_range(world.min.x, world.max.x, center.x, self.zoom);
        let (min_y, max_y) = axis_range(world.min.y, world.max.y, center.y, self.zoom);
        BoundingBox { min: Point { x: min_x, y: min_y }, max: Point { x: max_x, y: max_y } }
    }
}

} // verus!
