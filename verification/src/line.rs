//! The points of a line walk between two pixels, and the per-row bounds
//! that walking the outline of a shape leaves behind.

use crate::field::{FIELD_HEIGHT, FIELD_WIDTH};
use vstd::arithmetic::div_mod::{lemma_fundamental_div_mod, lemma_fundamental_div_mod_converse};
use vstd::prelude::*;

verus! {

/// A pixel position; it may lie outside the image.
#[derive(Clone, Copy, Debug, PartialEq, Eq, Structural)]
pub struct Point {
    pub x: i32,
    pub y: i32,
}

/// Distance between two coordinates.
pub open spec fn span(a: int, b: int) -> int {
    if a <= b {
        b - a
    } else {
        a - b
    }
}

/// The coordinate `d` steps away from `from` in the direction of `to`.
pub open spec fn toward(from: int, to: int, d: int) -> int {
    if from < to {
        from + d
    } else {
        from - d
    }
}

/// How far the walk has moved on its shorter axis after `k` steps on the
/// longer one: `k * minor / major` rounded to the nearest whole number, a
/// half rounding down.
pub open spec fn lean(k: int, minor: int, major: int) -> int {
    (k * minor + (major - 1) / 2) / major
}

/// What the rounding in `lean` leaves over.
pub open spec fn slack(k: int, minor: int, major: int) -> int {
    (k * minor + (major - 1) / 2) % major
}

/// Number of steps of the walk from `a` to `b`; it visits one point more.
pub open spec fn walk_len(a: Point, b: Point) -> int {
    let dx = span(a.x as int, b.x as int);
    let dy = span(a.y as int, b.y as int);
    if dx > dy {
        dx
    } else {
        dy
    }
}

/// Column of the `k`-th point of the walk from `a` to `b`. The walk advances
/// one column per step where the ends lie farther apart in columns than in
/// rows, and leans toward the end column otherwise.
pub open spec fn walk_x(a: Point, b: Point, k: int) -> int {
    let dx = span(a.x as int, b.x as int);
    let dy = span(a.y as int, b.y as int);
    if dx > dy {
        toward(a.x as int, b.x as int, k)
    } else if dy == 0 {
        a.x as int
    } else {
        toward(a.x as int, b.x as int, lean(k, dx, dy))
    }
}

/// Row of the `k`-th point of the walk from `a` to `b`.
pub open spec fn walk_y(a: Point, b: Point, k: int) -> int {
    let dx = span(a.x as int, b.x as int);
    let dy = span(a.y as int, b.y as int);
    if dx > dy {
        toward(a.y as int, b.y as int, lean(k, dy, dx))
    } else {
        toward(a.y as int, b.y as int, k)
    }
}

/// Row bounds with no row touched: two cells per row, each holding `-1`.
pub open spec fn unset() -> Seq<int> {
    Seq::new((2 * FIELD_HEIGHT) as nat, |i: int| -1int)
}

/// A row's left bound after column `x` was visited. A bound of `-1` counts
/// as not yet set, also where a visit at column `-1` put it there.
pub open spec fn widen_lo(c: int, x: int) -> int {
    if x < c || c == -1 {
        x
    } else {
        c
    }
}

/// A row's right bound after column `x` was visited.
pub open spec fn widen_hi(c: int, x: int) -> int {
    if x > c || c == -1 {
        x
    } else {
        c
    }
}

/// The bounds after a visit at `(x, y)`: cell `2 * y` holds the row's left
/// bound and cell `2 * y + 1` its right bound. A visit above or below the
/// image changes nothing.
pub open spec fn touch(c: Seq<int>, x: int, y: int) -> Seq<int> {
    if 0 <= y < FIELD_HEIGHT {
        c.update(2 * y, widen_lo(c[2 * y], x)).update(2 * y + 1, widen_hi(c[2 * y + 1], x))
    } else {
        c
    }
}

/// The bounds after the first `n` points of the walk from `a` to `b` were
/// visited in turn.
pub open spec fn trace(c: Seq<int>, a: Point, b: Point, n: nat) -> Seq<int>
    decreases n,
{
    if n == 0 {
        c
    } else {
        touch(trace(c, a, b, (n - 1) as nat), walk_x(a, b, n - 1), walk_y(a, b, n - 1))
    }
}

/// The bounds after the whole walk from `a` to `b`.
pub open spec fn trace_line(c: Seq<int>, a: Point, b: Point) -> Seq<int> {
    trace(c, a, b, (walk_len(a, b) + 1) as nat)
}

/// The bounds that the closed outline through four corners leaves, starting
/// from rows that are all unset.
pub open spec fn outline(p1: Point, p2: Point, p3: Point, p4: Point) -> Seq<int> {
    trace_line(trace_line(trace_line(trace_line(unset(), p1, p2), p2, p3), p3, p4), p4, p1)
}

/// Whether pixel `(px, py)` lies between the bounds of its row, both set.
pub open spec fn covered(c: Seq<int>, px: int, py: int) -> bool {
    &&& 0 <= py < FIELD_HEIGHT
    &&& c[2 * py] != -1
    &&& c[2 * py + 1] != -1
    &&& c[2 * py] <= px <= c[2 * py + 1]
}

/// `img` with the covered pixels of the rows above `rows` set to `color`.
pub open spec fn paint_rows(img: Seq<u32>, color: u32, c: Seq<int>, rows: int) -> Seq<u32> {
    Seq::new(
        img.len(),
        |i: int|
            if i / (FIELD_WIDTH as int) < rows && covered(
                c,
                i % (FIELD_WIDTH as int),
                i / (FIELD_WIDTH as int),
            ) {
                color
            } else {
                img[i]
            },
    )
}

/// `img` with every covered pixel set to `color`.
pub open spec fn paint_spans(img: Seq<u32>, color: u32, c: Seq<int>) -> Seq<u32> {
    paint_rows(img, color, c, FIELD_HEIGHT as int)
}

/// `img` with the shape outlined by four corners filled with `color`.
pub open spec fn paint_line(
    img: Seq<u32>,
    color: u32,
    p1: Point,
    p2: Point,
    p3: Point,
    p4: Point,
) -> Seq<u32> {
    paint_spans(img, color, outline(p1, p2, p3, p4))
}

/// Before the first step the walk has not leaned, and the rounding starts
/// from half a step.
pub proof fn lemma_lean_start(minor: int, major: int)
    requires
        0 <= minor,
        0 < major,
    ensures
        lean(0, minor, major) == 0,
        slack(0, minor, major) == (major - 1) / 2,
{
    let h = (major - 1) / 2;
    assert(0 * minor == 0);
    assert(0 <= h < major);
    assert(h == 0 * major + h);
    lemma_fundamental_div_mod_converse(h, major, 0, h);
}

/// One more step on the longer axis moves the walk one step on the shorter
/// axis exactly when the slack overflows.
pub proof fn lemma_lean_step(k: int, minor: int, major: int)
    requires
        0 <= k,
        0 <= minor <= major,
        0 < major,
    ensures
        0 <= slack(k, minor, major) < major,
        slack(k, minor, major) + minor >= major ==> lean(k + 1, minor, major) == lean(
            k,
            minor,
            major,
        ) + 1 && slack(k + 1, minor, major) == slack(k, minor, major) + minor - major,
        slack(k, minor, major) + minor < major ==> lean(k + 1, minor, major) == lean(
            k,
            minor,
            major,
        ) && slack(k + 1, minor, major) == slack(k, minor, major) + minor,
{
    let h = (major - 1) / 2;
    let x = k * minor + h;
    let q = x / major;
    let r = x % major;
    lemma_fundamental_div_mod(x, major);
    assert(x == major * q + r);
    assert(0 <= r < major);
    let x2 = (k + 1) * minor + h;
    assert(x2 == x + minor) by (nonlinear_arith)
        requires
            x == k * minor + h,
            x2 == (k + 1) * minor + h,
    ;
    if r + minor >= major {
        assert(x2 == (q + 1) * major + (r + minor - major)) by (nonlinear_arith)
            requires
                x2 == x + minor,
                x == major * q + r,
        ;
        lemma_fundamental_div_mod_converse(x2, major, q + 1, r + minor - major);
    } else {
        assert(x2 == q * major + (r + minor)) by (nonlinear_arith)
            requires
                x2 == x + minor,
                x == major * q + r,
        ;
        lemma_fundamental_div_mod_converse(x2, major, q, r + minor);
    }
}

/// The walk never leans backward nor past the end.
pub proof fn lemma_lean_range(k: int, minor: int, major: int)
    requires
        0 <= k <= major,
        0 <= minor <= major,
        0 < major,
    ensures
        0 <= lean(k, minor, major) <= minor,
        k == major ==> lean(k, minor, major) == minor,
{
    let h = (major - 1) / 2;
    let x = k * minor + h;
    let q = x / major;
    let r = x % major;
    lemma_fundamental_div_mod(x, major);
    assert(0 <= h < major);
    assert(0 <= k * minor <= major * minor) by (nonlinear_arith)
        requires
            0 <= k <= major,
            0 <= minor,
    ;
    assert(0 <= q <= minor) by (nonlinear_arith)
        requires
            x == major * q + r,
            0 <= r < major,
            0 <= x < major * minor + major,
            0 < major,
    ;
    if k == major {
        assert(x == minor * major + h) by (nonlinear_arith)
            requires
                x == k * minor + h,
                k == major,
        ;
        lemma_fundamental_div_mod_converse(x, major, minor, h);
    }
}

/// The walk starts at `a`.
pub proof fn lemma_walk_starts(a: Point, b: Point)
    ensures
        walk_x(a, b, 0) == a.x,
        walk_y(a, b, 0) == a.y,
{
    let dx = span(a.x as int, b.x as int);
    let dy = span(a.y as int, b.y as int);
    if dx > dy {
        lemma_lean_start(dy, dx);
    } else if dy > 0 {
        lemma_lean_start(dx, dy);
    }
}

/// The walk ends at `b`, and reaches it with its last step only.
pub proof fn lemma_walk_ends(a: Point, b: Point)
    ensures
        walk_x(a, b, walk_len(a, b)) == b.x,
        walk_y(a, b, walk_len(a, b)) == b.y,
        forall|k: int|
            0 <= k < walk_len(a, b) ==> !(#[trigger] walk_x(a, b, k) == b.x && walk_y(a, b, k)
                == b.y),
{
    let dx = span(a.x as int, b.x as int);
    let dy = span(a.y as int, b.y as int);
    if dx > dy {
        lemma_lean_range(dx, dy, dx);
    } else if dy > 0 {
        lemma_lean_range(dy, dx, dy);
    }
}

/// Every point of the walk lies in the box spanned by its two ends.
pub proof fn lemma_walk_in_box(a: Point, b: Point, k: int)
    requires
        0 <= k <= walk_len(a, b),
    ensures
        span(a.x as int, walk_x(a, b, k)) <= span(a.x as int, b.x as int),
        span(a.y as int, walk_y(a, b, k)) <= span(a.y as int, b.y as int),
        i32::MIN <= walk_x(a, b, k) <= i32::MAX,
        i32::MIN <= walk_y(a, b, k) <= i32::MAX,
{
    let dx = span(a.x as int, b.x as int);
    let dy = span(a.y as int, b.y as int);
    if dx > dy {
        lemma_lean_range(k, dy, dx);
    } else if dy > 0 {
        lemma_lean_range(k, dx, dy);
    }
}

/// The walk is unbroken: from one point to the next it moves by at most one
/// column and at most one row, and never stays in place.
pub proof fn lemma_walk_connected(a: Point, b: Point, k: int)
    requires
        0 <= k < walk_len(a, b),
    ensures
        span(walk_x(a, b, k), walk_x(a, b, k + 1)) <= 1,
        span(walk_y(a, b, k), walk_y(a, b, k + 1)) <= 1,
        span(walk_x(a, b, k), walk_x(a, b, k + 1)) + span(walk_y(a, b, k), walk_y(a, b, k + 1))
            >= 1,
{
    let dx = span(a.x as int, b.x as int);
    let dy = span(a.y as int, b.y as int);
    if dx > dy {
        lemma_lean_step(k, dy, dx);
    } else {
        lemma_lean_step(k, dx, dy);
    }
}

/// Visits keep the number of cells.
pub proof fn lemma_trace_len(c: Seq<int>, a: Point, b: Point, n: nat)
    requires
        c.len() == 2 * FIELD_HEIGHT,
    ensures
        trace(c, a, b, n).len() == c.len(),
    decreases n,
{
    if n > 0 {
        lemma_trace_len(c, a, b, (n - 1) as nat);
    }
}

/// Filling a shape a second time with the same colour changes nothing: the
/// bounds are rebuilt from the corners alone on every call.
pub proof fn lemma_paint_line_idempotent(
    img: Seq<u32>,
    color: u32,
    p1: Point,
    p2: Point,
    p3: Point,
    p4: Point,
)
    ensures
        paint_line(paint_line(img, color, p1, p2, p3, p4), color, p1, p2, p3, p4) == paint_line(
            img,
            color,
            p1,
            p2,
            p3,
            p4,
        ),
{
    let once = paint_line(img, color, p1, p2, p3, p4);
    let twice = paint_line(once, color, p1, p2, p3, p4);
    assert(twice =~= once);
}

} // verus!
