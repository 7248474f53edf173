//! How many pixels a filled box covers.

use crate::field::{FIELD_HEIGHT, FIELD_PIXELS, FIELD_WIDTH};
use crate::raster::{blank, half, in_box, paint_box, paint_rect};
use vstd::prelude::*;

verus! {

/// Number of pixels equal to `color` among the first `n` of `img`.
pub open spec fn count_color(img: Seq<u32>, color: u32, n: nat) -> nat
    decreases n,
{
    if n == 0 {
        0
    } else {
        count_color(img, color, (n - 1) as nat) + if img[n - 1] == color {
            1nat
        } else {
            0nat
        }
    }
}

/// `v` held to the range `lo..=hi`.
pub open spec fn clamp(v: int, lo: int, hi: int) -> int {
    if v < lo {
        lo
    } else if v > hi {
        hi
    } else {
        v
    }
}

/// Whether the box `l..=r` by `t..=b` has a pixel in the image.
pub open spec fn meets_field(l: int, r: int, t: int, b: int) -> bool {
    l <= r && t <= b && r >= 0 && l < FIELD_WIDTH && b >= 0 && t < FIELD_HEIGHT
}

/// Number of box pixels among the first `n` pixels of the image, for a box
/// that lies in the image: the full box rows above pixel `n`, and the part
/// of its own row to its left.
spec fn box_prefix(l: int, r: int, t: int, b: int, n: int) -> int {
    let y = n / (FIELD_WIDTH as int);
    let x = n % (FIELD_WIDTH as int);
    let rows_above = clamp(y - t, 0, b - t + 1);
    let left_of = clamp(x - l, 0, r - l + 1);
    rows_above * (r - l + 1) + if t <= y <= b {
        left_of
    } else {
        0
    }
}

proof fn lemma_count_prefix(color: u32, l: int, r: int, t: int, b: int, n: nat)
    requires
        color != 0,
        0 <= l <= r < FIELD_WIDTH,
        0 <= t <= b < FIELD_HEIGHT,
        n <= FIELD_PIXELS,
    ensures
        count_color(paint_box(blank(), color, l, r, t, b), color, n) == box_prefix(
            l,
            r,
            t,
            b,
            n as int,
        ),
    decreases n,
{
    let img = paint_box(blank(), color, l, r, t, b);
    let cw = r - l + 1;
    if n == 0 {
        assert(clamp(0 - t, 0, b - t + 1) == 0);
        assert(0 * cw == 0);
    } else {
        let m = (n - 1) as int;
        lemma_count_prefix(color, l, r, t, b, (n - 1) as nat);
        let y = m / (FIELD_WIDTH as int);
        let x = m % (FIELD_WIDTH as int);
        let hit = in_box(x, y, l, r, t, b);
        assert(img[m] == (if hit {
            color
        } else {
            0u32
        }));
        let ra = clamp(y - t, 0, b - t + 1);
        if x + 1 < FIELD_WIDTH {
            assert((m + 1) / (FIELD_WIDTH as int) == y);
            assert((m + 1) % (FIELD_WIDTH as int) == x + 1);
        } else {
            assert((m + 1) / (FIELD_WIDTH as int) == y + 1);
            assert((m + 1) % (FIELD_WIDTH as int) == 0);
            let ra2 = clamp(y + 1 - t, 0, b - t + 1);
            if t <= y <= b {
                assert(ra2 == ra + 1);
                assert(ra2 * cw == ra * cw + cw) by (nonlinear_arith)
                    requires
                        ra2 == ra + 1,
                ;
            } else {
                assert(ra2 == ra);
            }
        }
    }
}

/// A box that has no pixel in the image leaves every pixel as it was.
pub proof fn lemma_rect_outside_unchanged(img: Seq<u32>, color: u32, x: int, y: int, w: int, h: int)
    requires
        !meets_field(x - half(w), x + half(w), y - half(h), y + half(h)),
        img.len() == FIELD_PIXELS,
    ensures
        paint_rect(img, color, x, y, w, h) == img,
{
    assert(paint_rect(img, color, x, y, w, h) =~= img);
}

/// On a blank image, a box that has a pixel in the image sets exactly the
/// pixels of its clamped columns and rows: their number is the product of
/// the clamped width and height, and every other pixel stays zero.
pub proof fn lemma_rect_pixel_count(color: u32, x: int, y: int, w: int, h: int)
    requires
        color != 0,
        meets_field(x - half(w), x + half(w), y - half(h), y + half(h)),
    ensures
        ({
            let left = clamp(x - half(w), 0, FIELD_WIDTH - 1);
            let right = clamp(x + half(w), 0, FIELD_WIDTH - 1);
            let top = clamp(y - half(h), 0, FIELD_HEIGHT - 1);
            let bottom = clamp(y + half(h), 0, FIELD_HEIGHT - 1);
            let img = paint_rect(blank(), color, x, y, w, h);
            &&& count_color(img, color, FIELD_PIXELS as nat) == (right - left + 1) * (bottom - top
                + 1)
            &&& forall|i: int|
                0 <= i < FIELD_PIXELS ==> #[trigger] img[i] == (if in_box(
                    i % (FIELD_WIDTH as int),
                    i / (FIELD_WIDTH as int),
                    left,
                    right,
                    top,
                    bottom,
                ) {
                    color
                } else {
                    0u32
                })
        }),
{
    let left = clamp(x - half(w), 0, FIELD_WIDTH - 1);
    let right = clamp(x + half(w), 0, FIELD_WIDTH - 1);
    let top = clamp(y - half(h), 0, FIELD_HEIGHT - 1);
    let bottom = clamp(y + half(h), 0, FIELD_HEIGHT - 1);
    let img = paint_rect(blank(), color, x, y, w, h);
    let clamped = paint_box(blank(), color, left, right, top, bottom);
    assert(img =~= clamped);
    lemma_count_prefix(color, left, right, top, bottom, FIELD_PIXELS as nat);
    assert((FIELD_PIXELS as int) / (FIELD_WIDTH as int) == FIELD_HEIGHT);
    assert((FIELD_PIXELS as int) % (FIELD_WIDTH as int) == 0);
    let rows = bottom - top + 1;
    let cols = right - left + 1;
    assert(clamp(FIELD_HEIGHT - top, 0, rows) == rows);
    assert(rows * cols == cols * rows) by (nonlinear_arith);
}

} // verus!
