//! Bresenham's line tracer, as the sequence of states it steps through.
use vstd::prelude::*;

verus! {

pub open spec fn abs(v: int) -> int {
    if v < 0 { -v } else { v }
}

/// The direction of a step from `a` towards `b`.
pub open spec fn step_dir(a: int, b: int) -> int {
    if a < b { 1 } else { -1 }
}

/// One step of Bresenham's tracer on the state `(x, y, err)`, for a line of
/// extents `dx >= 0` and `dy <= 0` and step directions `sx`, `sy`.
pub open spec fn trace_step(s: (int, int, int), dx: int, dy: int, sx: int, sy: int) -> (int, int, int) {
    let e2 = 2 * s.2;
    let (x, err) = if e2 >= dy { (s.0 + sx, s.2 + dy) } else { (s.0, s.2) };
    if e2 <= dx { (x, s.1 + sy, err + dx) } else { (x, s.1, err) }
}

/// The tracer's state after `k` steps from `(x0, y0)` towards `(x1, y1)`.
pub open spec fn trace_state(x0: int, y0: int, x1: int, y1: int, k: nat) -> (int, int, int)
    decreases k,
{
    let dx = abs(x1 - x0);
    let dy = -abs(y1 - y0);
    if k == 0 {
        (x0, y0, dx + dy)
    } else {
        trace_step(trace_state(x0, y0, x1, y1, (k - 1) as nat), dx, dy, step_dir(x0, x1), step_dir(y0, y1))
    }
}

/// The cell of the tracer after `k` steps.
pub open spec fn trace_cell(x0: int, y0: int, x1: int, y1: int, k: nat) -> (int, int) {
    let s = trace_state(x0, y0, x1, y1, k);
    (s.0, s.1)
}

/// The tracer has not reached `(x1, y1)` in its first `k` steps.
pub open spec fn trace_open(x0: int, y0: int, x1: int, y1: int, k: nat) -> bool {
    forall|j: nat| j < k ==> #[trigger] trace_cell(x0, y0, x1, y1, j) != (x1, y1)
}

/// The cells that Bresenham's algorithm visits from `(x0, y0)` up to and
/// including `(x1, y1)`.
pub open spec fn line_cells(x0: int, y0: int, x1: int, y1: int) -> Set<(int, int)> {
    Set::new(
        |c: (int, int)|
            exists|k: nat| trace_open(x0, y0, x1, y1, k) && c == #[trigger] trace_cell(x0, y0, x1, y1, k),
    )
}

/// The cells visited in the first `k` steps.
pub open spec fn trace_prefix(x0: int, y0: int, x1: int, y1: int, k: nat) -> Set<(int, int)> {
    Set::new(|c: (int, int)| exists|j: nat| j < k && c == #[trigger] trace_cell(x0, y0, x1, y1, j))
}

// The error term after i steps along x and j along y, for extents dx and
// big_dy, is dx * (j + 1) - big_dy * (i + 1). Once one axis has reached its
// end, the term forbids a further step along it.

pub(crate) proof fn lemma_err_x_done(dx: int, big_dy: int, j: int)
    requires
        0 <= j < big_dy,
        0 <= dx,
    ensures
        2 * (dx * (j + 1) - big_dy * (dx + 1)) < -big_dy,
{
    assert(2 * (dx * (j + 1) - big_dy * (dx + 1)) < -big_dy) by (nonlinear_arith)
        requires 0 <= dx, 0 <= j, j + 1 <= big_dy;
}

pub(crate) proof fn lemma_err_y_done(dx: int, big_dy: int, i: int)
    requires
        0 <= i < dx,
        0 <= big_dy,
    ensures
        2 * (dx * (big_dy + 1) - big_dy * (i + 1)) > dx,
{
    assert(2 * (dx * (big_dy + 1) - big_dy * (i + 1)) > dx) by (nonlinear_arith)
        requires 0 <= big_dy, 0 <= i, i + 1 <= dx;
}

pub(crate) proof fn lemma_err_shift(dx: int, big_dy: int, i: int, j: int)
    ensures
        dx * (j + 1) - big_dy * (i + 2) == dx * (j + 1) - big_dy * (i + 1) - big_dy,
        dx * (j + 2) - big_dy * (i + 1) == dx * (j + 1) - big_dy * (i + 1) + dx,
{
    assert(big_dy * (i + 2) == big_dy * (i + 1) + big_dy) by (nonlinear_arith);
    assert(dx * (j + 2) == dx * (j + 1) + dx) by (nonlinear_arith);
}

/// Steps taken along x by the state `s` of the tracer from `x0` towards `x1`.
pub open spec fn x_steps(x0: int, x1: int, s: (int, int, int)) -> int {
    if x0 < x1 { s.0 - x0 } else { x0 - s.0 }
}

/// Steps taken along y by the state `s` of the tracer from `y0` towards `y1`.
pub open spec fn y_steps(y0: int, y1: int, s: (int, int, int)) -> int {
    if y0 < y1 { s.1 - y0 } else { y0 - s.1 }
}

/// Until it reaches its end, the tracer stays within the steps that separate
/// the two ends, takes at least one step per iteration, and keeps its error
/// term at `dx * (j + 1) - |dy| * (i + 1)`.
proof fn lemma_trace_progress(x0: int, y0: int, x1: int, y1: int, k: nat)
    requires
        trace_open(x0, y0, x1, y1, k),
    ensures
        ({
            let s = trace_state(x0, y0, x1, y1, k);
            let (i, j) = (x_steps(x0, x1, s), y_steps(y0, y1, s));
            let (dx, big_dy) = (abs(x1 - x0), abs(y1 - y0));
            &&& 0 <= i <= dx
            &&& 0 <= j <= big_dy
            &&& s.2 == dx * (j + 1) - big_dy * (i + 1)
            &&& i + j >= k
        }),
    decreases k,
{
    let (dx, big_dy) = (abs(x1 - x0), abs(y1 - y0));
    if k == 0 {
        assert(dx * (0 + 1) - big_dy * (0 + 1) == dx - big_dy) by (nonlinear_arith);
    } else {
        let k0 = (k - 1) as nat;
        assert(trace_open(x0, y0, x1, y1, k0));
        assert(trace_cell(x0, y0, x1, y1, k0) != (x1, y1));
        lemma_trace_progress(x0, y0, x1, y1, k0);
        let s = trace_state(x0, y0, x1, y1, k0);
        let (i, j) = (x_steps(x0, x1, s), y_steps(y0, y1, s));
        if i == dx && j < big_dy {
            lemma_err_x_done(dx, big_dy, j);
        }
        if j == big_dy && i < dx {
            lemma_err_y_done(dx, big_dy, i);
        }
        lemma_err_shift(dx, big_dy, i, j);
        lemma_err_shift(dx, big_dy, i + 1, j);
    }
}

/// The tracer, still short of its end after `k` iterations, reaches it.
proof fn lemma_trace_reaches_end(x0: int, y0: int, x1: int, y1: int, k: nat)
    requires
        trace_open(x0, y0, x1, y1, k),
    ensures
        line_cells(x0, y0, x1, y1).contains((x1, y1)),
    decreases abs(x1 - x0) + abs(y1 - y0) + 1 - k,
{
    lemma_trace_progress(x0, y0, x1, y1, k);
    if trace_cell(x0, y0, x1, y1, k) == (x1, y1) {
    } else {
        assert(trace_open(x0, y0, x1, y1, k + 1));
        lemma_trace_progress(x0, y0, x1, y1, k + 1);
        lemma_trace_reaches_end(x0, y0, x1, y1, k + 1);
    }
}

/// The cells of a line are its two ends and cells of the rectangle that
/// they span.
pub proof fn lemma_line_cells_bounded(x0: int, y0: int, x1: int, y1: int)
    ensures
        line_cells(x0, y0, x1, y1).contains((x0, y0)),
        line_cells(x0, y0, x1, y1).contains((x1, y1)),
        forall|c: (int, int)| #[trigger] line_cells(x0, y0, x1, y1).contains(c) ==> in_rect(x0, y0, x1, y1, c),
{
    assert(trace_open(x0, y0, x1, y1, 0));
    assert(trace_cell(x0, y0, x1, y1, 0) == (x0, y0));
    lemma_trace_reaches_end(x0, y0, x1, y1, 0);
    assert forall|c: (int, int)| #[trigger] line_cells(x0, y0, x1, y1).contains(c) implies in_rect(x0, y0, x1, y1, c) by {
        let k = choose|k: nat| trace_open(x0, y0, x1, y1, k) && c == #[trigger] trace_cell(x0, y0, x1, y1, k);
        lemma_trace_progress(x0, y0, x1, y1, k);
    }
}

/// The cell `c` lies in the rectangle with corners `(x0, y0)` and `(x1, y1)`.
pub open spec fn in_rect(x0: int, y0: int, x1: int, y1: int, c: (int, int)) -> bool {
    &&& (x0 <= c.0 <= x1 || x1 <= c.0 <= x0)
    &&& (y0 <= c.1 <= y1 || y1 <= c.1 <= y0)
}

/// `(x0, y0)` comes first in the order rows, then columns.
pub open spec fn is_lower_end(x0: int, y0: int, x1: int, y1: int) -> bool {
    y0 < y1 || (y0 == y1 && x0 <= x1)
}

/// The cells of the segment joining `(x0, y0)` and `(x1, y1)`: those that
/// Bresenham's tracer visits from the lower of the two ends to the other.
pub open spec fn segment_cells(x0: int, y0: int, x1: int, y1: int) -> Set<(int, int)> {
    if is_lower_end(x0, y0, x1, y1) {
        line_cells(x0, y0, x1, y1)
    } else {
        line_cells(x1, y1, x0, y0)
    }
}

/// A segment touches the same cells whichever end it is drawn from.
pub proof fn lemma_segment_symmetric(x0: int, y0: int, x1: int, y1: int)
    ensures
        segment_cells(x0, y0, x1, y1) == segment_cells(x1, y1, x0, y0),
{
}

/// A segment holds both its ends, and only cells of the rectangle that they span.
pub proof fn lemma_segment_bounded(x0: int, y0: int, x1: int, y1: int)
    ensures
        segment_cells(x0, y0, x1, y1).contains((x0, y0)),
        segment_cells(x0, y0, x1, y1).contains((x1, y1)),
        forall|c: (int, int)| #[trigger] segment_cells(x0, y0, x1, y1).contains(c) ==> in_rect(x0, y0, x1, y1, c),
{
    lemma_line_cells_bounded(x0, y0, x1, y1);
    lemma_line_cells_bounded(x1, y1, x0, y0);
}

} // verus!
