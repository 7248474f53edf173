//! The framebuffer: filling axis-aligned boxes, and filling the shape that
//! an outline of four line walks encloses.

use crate::field::{
    BULLET_COLOR, ENEMY_COLOR, ENEMY_SIZE, FIELD_HEIGHT, FIELD_PIXELS, FIELD_WIDTH, PLAYER_COLOR,
    PLAYER_SIZE,
};
use crate::line::{
    lemma_lean_start, lemma_lean_step, lemma_trace_len, lemma_walk_ends, lemma_walk_in_box,
    lemma_walk_starts, outline, paint_line, paint_rows, slack, span, touch, trace, trace_line,
    unset, walk_len, walk_x, walk_y, Point,
};
use vstd::prelude::*;

verus! {

/// The image in which every pixel is zero.
pub open spec fn blank() -> Seq<u32> {
    Seq::new(FIELD_PIXELS as nat, |i: int| 0u32)
}

/// Half of `w`, rounded toward zero.
pub open spec fn half(w: int) -> int {
    if w >= 0 {
        w / 2
    } else {
        -((-w) / 2)
    }
}

/// Whether pixel `(px, py)` lies in the box with inclusive bounds `l..=r`
/// and `t..=b`.
pub open spec fn in_box(px: int, py: int, l: int, r: int, t: int, b: int) -> bool {
    l <= px <= r && t <= py <= b
}

/// `img` with every pixel of the box `l..=r` by `t..=b` set to `color`.
/// Pixel `i` sits in column `i % FIELD_WIDTH` of row `i / FIELD_WIDTH`, so
/// the part of the box outside the image has no pixel to set.
pub open spec fn paint_box(img: Seq<u32>, color: u32, l: int, r: int, t: int, b: int) -> Seq<u32> {
    Seq::new(
        img.len(),
        |i: int|
            if in_box(i % (FIELD_WIDTH as int), i / (FIELD_WIDTH as int), l, r, t, b) {
                color
            } else {
                img[i]
            },
    )
}

/// `img` with the box of half-width `half(w)` and half-height `half(h)`
/// around `(x, y)` set to `color`.
pub open spec fn paint_rect(img: Seq<u32>, color: u32, x: int, y: int, w: int, h: int) -> Seq<u32> {
    paint_box(img, color, x - half(w), x + half(w), y - half(h), y + half(h))
}

/// The stored row bounds read as numbers.
pub open spec fn bounds(cells: Seq<i32>) -> Seq<int> {
    cells.map_values(|v: i32| v as int)
}

/// A fixed-size image of packed colours, stored row by row.
pub struct Renderer {
    buffer: Vec<u32>,
    contours: Vec<i32>,
}

impl View for Renderer {
    type V = Seq<u32>;

    closed spec fn view(&self) -> Seq<u32> {
        self.buffer@
    }
}

impl Renderer {
    #[verifier::type_invariant]
    spec fn sized(self) -> bool {
        self.buffer@.len() == FIELD_PIXELS && self.contours@.len() == 2 * FIELD_HEIGHT
    }

    /// A blank image.
    pub fn new() -> (r: Renderer)
        ensures
            r@ == blank(),
    {
        let mut buffer: Vec<u32> = Vec::new();
        let mut i: usize = 0;
        while i < FIELD_PIXELS
            invariant
                i <= FIELD_PIXELS,
                buffer@.len() == i,
                forall|k: int| 0 <= k < i ==> buffer@[k] == 0u32,
            decreases FIELD_PIXELS - i,
        {
            buffer.push(0u32);
            i += 1;
        }
        let mut contours: Vec<i32> = Vec::new();
        let mut j: usize = 0;
        while j < 2 * FIELD_HEIGHT
            invariant
                j <= 2 * FIELD_HEIGHT,
                contours@.len() == j,
            decreases 2 * FIELD_HEIGHT - j,
        {
            contours.push(-1i32);
            j += 1;
        }
        assert(buffer@ =~= blank());
        Renderer { buffer, contours }
    }

    /// The pixels, row by row.
    pub fn buffer(&self) -> (r: &Vec<u32>)
        ensures
            r@ == self@,
            r@.len() == FIELD_PIXELS,
    {
        proof {
            use_type_invariant(self);
        }
        &self.buffer
    }

    /// Sets every pixel to zero.
    pub fn clear(&mut self)
        ensures
            final(self)@ == blank(),
    {
        proof {
            use_type_invariant(&*self);
        }
        let mut i: usize = 0;
        while i < FIELD_PIXELS
            invariant
                i <= FIELD_PIXELS,
                self.buffer@.len() == FIELD_PIXELS,
                self.contours@.len() == 2 * FIELD_HEIGHT,
                forall|k: int| 0 <= k < i ==> self.buffer@[k] == 0u32,
            decreases FIELD_PIXELS - i,
        {
            self.buffer[i] = 0u32;
            i += 1;
        }
        assert(self.buffer@ =~= blank());
    }

    /// Fills columns `lo..=hi` of row `y`.
    fn fill_span(&mut self, color: u32, y: usize, lo: usize, hi: usize)
        requires
            y < FIELD_HEIGHT,
            hi < FIELD_WIDTH,
        ensures
            final(self)@ == paint_box(old(self)@, color, lo as int, hi as int, y as int, y as int),
            final(self).contours == old(self).contours,
    {
        proof {
            use_type_invariant(&*self);
        }
        if lo > hi {
            assert(self.buffer@ =~= paint_box(
                old(self)@,
                color,
                lo as int,
                hi as int,
                y as int,
                y as int,
            ));
            return ;
        }
        let base: usize = y * FIELD_WIDTH;
        let mut x: usize = lo;
        while x <= hi
            invariant
                lo <= x <= hi + 1,
                hi < FIELD_WIDTH,
                y < FIELD_HEIGHT,
                base == y * FIELD_WIDTH,
                self.buffer@.len() == FIELD_PIXELS,
                self.contours@.len() == 2 * FIELD_HEIGHT,
                self.contours == old(self).contours,
                old(self)@.len() == FIELD_PIXELS,
                self.buffer@ =~= paint_box(
                    old(self)@,
                    color,
                    lo as int,
                    x as int - 1,
                    y as int,
                    y as int,
                ),
            decreases hi + 1 - x,
        {
            self.buffer[base + x] = color;
            x += 1;
        }
    }

    /// Fills the part of the box `l..=r` by `t..=b` that lies in the image.
    fn fill_box(&mut self, color: u32, l: i64, r: i64, t: i64, b: i64)
        ensures
            final(self)@ == paint_box(old(self)@, color, l as int, r as int, t as int, b as int),
            final(self).contours == old(self).contours,
    {
        proof {
            use_type_invariant(&*self);
        }
        let left: i64 = if l < 0 { 0 } else { l };
        let right: i64 = if r > FIELD_WIDTH as i64 - 1 { FIELD_WIDTH as i64 - 1 } else { r };
        let top: i64 = if t < 0 { 0 } else { t };
        let bottom: i64 = if b > FIELD_HEIGHT as i64 - 1 { FIELD_HEIGHT as i64 - 1 } else { b };
        if left > right || top > bottom {
            assert(self.buffer@ =~= paint_box(
                old(self)@,
                color,
                l as int,
                r as int,
                t as int,
                b as int,
            ));
            return ;
        }
        let lo: usize = left as usize;
        let hi: usize = right as usize;
        let last: usize = bottom as usize;
        let mut y: usize = top as usize;
        while y <= last
            invariant
                0 <= top <= y <= last + 1,
                last == bottom,
                bottom < FIELD_HEIGHT,
                lo == left,
                hi == right,
                0 <= left <= right < FIELD_WIDTH,
                left == (if l < 0 { 0 } else { l }),
                right == (if r > FIELD_WIDTH - 1 { FIELD_WIDTH - 1 } else { r as int }),
                top == (if t < 0 { 0 } else { t }),
                bottom == (if b > FIELD_HEIGHT - 1 { FIELD_HEIGHT - 1 } else { b as int }),
                self.buffer@.len() == FIELD_PIXELS,
                self.contours@.len() == 2 * FIELD_HEIGHT,
                self.contours == old(self).contours,
                old(self)@.len() == FIELD_PIXELS,
                self.buffer@ =~= paint_box(
                    old(self)@,
                    color,
                    l as int,
                    r as int,
                    t as int,
                    y as int - 1,
                ),
            decreases last + 1 - y,
        {
            self.fill_span(color, y, lo, hi);
            assert(self.buffer@ =~= paint_box(
                old(self)@,
                color,
                l as int,
                r as int,
                t as int,
                y as int,
            ));
            y += 1;
        }
        assert(self.buffer@ =~= paint_box(
            old(self)@,
            color,
            l as int,
            r as int,
            t as int,
            b as int,
        ));
    }

    /// Fills the box of half-width `w / 2` and half-height `h / 2` around
    /// `(x, y)`, both halves rounded toward zero. The part of the box inside
    /// the image is filled; a box that misses the image changes nothing.
    pub fn draw_rect(&mut self, color: u32, x: i32, y: i32, w: i32, h: i32)
        ensures
            final(self)@ == paint_rect(old(self)@, color, x as int, y as int, w as int, h as int),
    {
        let hw: i64 = w as i64 / 2;
        let hh: i64 = h as i64 / 2;
        self.fill_box(color, x as i64 - hw, x as i64 + hw, y as i64 - hh, y as i64 + hh);
    }

    /// Draws the player around `(x, y)`: a square five times as wide as its
    /// hitbox, so that it stays visible when the image is scaled down.
    pub fn draw_player(&mut self, x: i32, y: i32)
        ensures
            final(self)@ == paint_rect(
                old(self)@,
                PLAYER_COLOR,
                x as int,
                y as int,
                5 * PLAYER_SIZE,
                5 * PLAYER_SIZE,
            ),
    {
        self.draw_rect(PLAYER_COLOR, x, y, 5 * PLAYER_SIZE, 5 * PLAYER_SIZE);
    }

    /// Draws the enemy around `(x, y)`, as large as its hitbox.
    pub fn draw_enemy(&mut self, x: i32, y: i32)
        ensures
            final(self)@ == paint_rect(
                old(self)@,
                ENEMY_COLOR,
                x as int,
                y as int,
                ENEMY_SIZE as int,
                ENEMY_SIZE as int,
            ),
    {
        self.draw_rect(ENEMY_COLOR, x, y, ENEMY_SIZE, ENEMY_SIZE);
    }

    /// Draws a bullet around `(x, y)`, three times as large as its hitbox of
    /// `size_x` by `size_y`.
    pub fn draw_bullet(&mut self, x: i32, y: i32, size_x: i32, size_y: i32)
        ensures
            final(self)@ == paint_rect(
                old(self)@,
                BULLET_COLOR,
                x as int,
                y as int,
                3 * size_x,
                3 * size_y,
            ),
    {
        let hw: i64 = (size_x as i64 * 3) / 2;
        let hh: i64 = (size_y as i64 * 3) / 2;
        self.fill_box(BULLET_COLOR, x as i64 - hw, x as i64 + hw, y as i64 - hh, y as i64 + hh);
    }

    /// Sets every row bound to unset.
    fn reset_contours(&mut self)
        ensures
            bounds(final(self).contours@) == unset(),
            final(self).buffer == old(self).buffer,
    {
        proof {
            use_type_invariant(&*self);
        }
        let mut i: usize = 0;
        while i < 2 * FIELD_HEIGHT
            invariant
                i <= 2 * FIELD_HEIGHT,
                self.buffer == old(self).buffer,
                self.buffer@.len() == FIELD_PIXELS,
                self.contours@.len() == 2 * FIELD_HEIGHT,
                forall|k: int| 0 <= k < i ==> self.contours@[k] == -1i32,
            decreases 2 * FIELD_HEIGHT - i,
        {
            self.contours[i] = -1i32;
            i += 1;
        }
        assert(bounds(self.contours@) =~= unset());
    }

    /// Walks from `p1` to `p2` one pixel at a time and widens the bounds of
    /// each row that a visited pixel lies in.
    fn bresenham_update_contours(&mut self, p1: Point, p2: Point)
        ensures
            bounds(final(self).contours@) == trace_line(bounds(old(self).contours@), p1, p2),
            final(self).buffer == old(self).buffer,
    {
        proof {
            use_type_invariant(&*self);
            lemma_walk_starts(p1, p2);
            lemma_walk_ends(p1, p2);
        }
        let x1: i64 = p2.x as i64;
        let y1: i64 = p2.y as i64;
        let mut x0: i64 = p1.x as i64;
        let mut y0: i64 = p1.y as i64;
        let dx: i64 = if x0 <= x1 { x1 - x0 } else { x0 - x1 };
        let dy: i64 = if y0 <= y1 { y1 - y0 } else { y0 - y1 };
        let sx: i64 = if x0 < x1 { 1 } else { -1 };
        let sy: i64 = if y0 < y1 { 1 } else { -1 };
        let mut err: i64 = (if dx > dy { dx } else { -dy }) / 2;
        let ghost start = bounds(self.contours@);
        let ghost n = walk_len(p1, p2);
        let ghost mut k: int = 0;
        proof {
            if dx > dy {
                lemma_lean_start(dy as int, dx as int);
            } else if dy > 0 {
                lemma_lean_start(dx as int, dy as int);
            }
        }
        loop
            invariant_except_break
                0 <= k <= n,
                bounds(self.contours@) == trace(start, p1, p2, k as nat),
            invariant
                n == walk_len(p1, p2),
                start.len() == 2 * FIELD_HEIGHT,
                self.buffer == old(self).buffer,
                self.buffer@.len() == FIELD_PIXELS,
                self.contours@.len() == 2 * FIELD_HEIGHT,
                x1 == p2.x,
                y1 == p2.y,
                dx == span(p1.x as int, p2.x as int),
                dy == span(p1.y as int, p2.y as int),
                sx == (if p1.x < p2.x { 1int } else { -1int }),
                sy == (if p1.y < p2.y { 1int } else { -1int }),
                x0 == walk_x(p1, p2, k),
                y0 == walk_y(p1, p2, k),
                dx > dy ==> err == dx - 1 - slack(k, dy as int, dx as int),
                dx <= dy && dy > 0 ==> err == slack(k, dx as int, dy as int) - dy + 1,
                walk_x(p1, p2, n) == p2.x,
                walk_y(p1, p2, n) == p2.y,
                forall|j: int|
                    0 <= j < n ==> !(#[trigger] walk_x(p1, p2, j) == p2.x && walk_y(p1, p2, j)
                        == p2.y),
            ensures
                bounds(self.contours@) == trace(start, p1, p2, (n + 1) as nat),
            decreases n - k,
        {
            proof {
                lemma_walk_in_box(p1, p2, k);
                lemma_trace_len(start, p1, p2, k as nat);
            }
            let ghost before = bounds(self.contours@);
            if y0 >= 0 && y0 < FIELD_HEIGHT as i64 {
                let row: usize = y0 as usize;
                let lo: i32 = self.contours[2 * row];
                if x0 < lo as i64 || lo == -1 {
                    self.contours[2 * row] = x0 as i32;
                }
                let hi: i32 = self.contours[2 * row + 1];
                if x0 > hi as i64 || hi == -1 {
                    self.contours[2 * row + 1] = x0 as i32;
                }
            }
            assert(bounds(self.contours@) =~= touch(before, x0 as int, y0 as int));
            assert(bounds(self.contours@) == trace(start, p1, p2, (k + 1) as nat));
            if x0 == x1 && y0 == y1 {
                break ;
            }
            proof {
                if dx > dy {
                    lemma_lean_step(k, dy as int, dx as int);
                } else {
                    lemma_lean_step(k, dx as int, dy as int);
                }
            }
            let e2: i64 = err;
            if e2 > -dx {
                err -= dy;
                x0 += sx;
            }
            if e2 < dy {
                err += dx;
                y0 += sy;
            }
            proof {
                k = k + 1;
            }
        }
    }

    /// Fills the shape whose outline runs through the four corners
    /// `p1 -> p2 -> p3 -> p4 -> p1`: each row is filled between the leftmost
    /// and the rightmost pixel that the outline visits in it. For the thick
    /// line between two points the corners are the ends moved by half the
    /// thickness to either side.
    pub fn draw_line(&mut self, color: u32, p1: Point, p2: Point, p3: Point, p4: Point)
        ensures
            final(self)@ == paint_line(old(self)@, color, p1, p2, p3, p4),
    {
        proof {
            use_type_invariant(&*self);
        }
        self.reset_contours();
        self.bresenham_update_contours(p1, p2);
        self.bresenham_update_contours(p2, p3);
        self.bresenham_update_contours(p3, p4);
        self.bresenham_update_contours(p4, p1);
        proof {
            use_type_invariant(&*self);
        }
        let ghost c = outline(p1, p2, p3, p4);
        let mut y: usize = 0;
        while y < FIELD_HEIGHT
            invariant
                y <= FIELD_HEIGHT,
                c == outline(p1, p2, p3, p4),
                bounds(self.contours@) == c,
                self.buffer@.len() == FIELD_PIXELS,
                self.contours@.len() == 2 * FIELD_HEIGHT,
                old(self)@.len() == FIELD_PIXELS,
                self.buffer@ =~= paint_rows(old(self)@, color, c, y as int),
            decreases FIELD_HEIGHT - y,
        {
            let lo: i32 = self.contours[2 * y];
            let hi: i32 = self.contours[2 * y + 1];
            assert(c[2 * y] == lo && c[2 * y + 1] == hi);
            if lo != -1 && hi != -1 {
                let first: usize = if lo < 0 { 0 } else { lo as usize };
                if hi >= 0 && first < FIELD_WIDTH {
                    let last: usize = if hi as usize > FIELD_WIDTH - 1 {
                        FIELD_WIDTH - 1
                    } else {
                        hi as usize
                    };
                    self.fill_span(color, y, first, last);
                }
            }
            assert(self.buffer@ =~= paint_rows(old(self)@, color, c, y as int + 1));
            y += 1;
        }
    }
}

} // verus!
