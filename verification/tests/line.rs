use bulletrl::field::{FIELD_HEIGHT, FIELD_PIXELS, FIELD_WIDTH};
use bulletrl::line::Point;
use bulletrl::raster::Renderer;

// The classic error-accumulating walk, written out independently: it
// returns the points that it visits.
fn reference_walk(a: Point, b: Point) -> Vec<(i64, i64)> {
    let (mut x0, mut y0) = (a.x as i64, a.y as i64);
    let (x1, y1) = (b.x as i64, b.y as i64);
    let dx = (x1 - x0).abs();
    let sx = if x0 < x1 { 1 } else { -1 };
    let dy = (y1 - y0).abs();
    let sy = if y0 < y1 { 1 } else { -1 };
    let mut err = (if dx > dy { dx } else { -dy }) / 2;
    let mut out = Vec::new();
    loop {
        out.push((x0, y0));
        if x0 == x1 && y0 == y1 {
            break;
        }
        let e2 = err;
        if e2 > -dx {
            err -= dy;
            x0 += sx;
        }
        if e2 < dy {
            err += dx;
            y0 += sy;
        }
    }
    out
}

// The image that filling between per-row bounds gives, with the bounds kept
// in cells that hold -1 while unset.
fn reference_fill(color: u32, corners: [Point; 4]) -> Vec<u32> {
    let mut contours = vec![-1i64; 2 * FIELD_HEIGHT];
    for i in 0..4 {
        for (x, y) in reference_walk(corners[i], corners[(i + 1) % 4]) {
            if y >= 0 && y < FIELD_HEIGHT as i64 {
                let row = y as usize;
                if x < contours[2 * row] || contours[2 * row] == -1 {
                    contours[2 * row] = x;
                }
                if x > contours[2 * row + 1] || contours[2 * row + 1] == -1 {
                    contours[2 * row + 1] = x;
                }
            }
        }
    }
    let mut img = vec![0u32; FIELD_PIXELS];
    for y in 0..FIELD_HEIGHT {
        let (lo, hi) = (contours[2 * y], contours[2 * y + 1]);
        if lo != -1 && hi != -1 {
            for x in 0..FIELD_WIDTH as i64 {
                if lo <= x && x <= hi {
                    img[y * FIELD_WIDTH + x as usize] = color;
                }
            }
        }
    }
    img
}

fn p(x: i32, y: i32) -> Point {
    Point { x, y }
}

fn check(corners: [Point; 4]) {
    let mut r = Renderer::new();
    r.draw_line(0xABCDEF, corners[0], corners[1], corners[2], corners[3]);
    let want = reference_fill(0xABCDEF, corners);
    assert!(r.buffer() == &want, "corners {:?}", corners);
}

#[test]
fn draw_line_single_point() {
    let mut r = Renderer::new();
    r.draw_line(7, p(5, 5), p(5, 5), p(5, 5), p(5, 5));
    for (i, px) in r.buffer().iter().enumerate() {
        assert_eq!(*px, if i == 5 * FIELD_WIDTH + 5 { 7 } else { 0 });
    }
}

#[test]
fn draw_line_axis_aligned_box() {
    let mut r = Renderer::new();
    r.draw_line(7, p(10, 20), p(30, 20), p(30, 25), p(10, 25));
    for y in 0..FIELD_HEIGHT {
        for x in 0..FIELD_WIDTH {
            let inside = (10..=30).contains(&x) && (20..=25).contains(&y);
            assert_eq!(r.buffer()[y * FIELD_WIDTH + x], if inside { 7 } else { 0 });
        }
    }
}

#[test]
fn draw_line_shallow_edge_rounds_half_toward_start() {
    // out from (0, 0) to (4, 2) the walk visits (0,0) (1,0) (2,1) (3,1) (4,2);
    // back from (4, 2) it visits (4,2) (3,2) (2,1) (1,1) (0,0): where the
    // line passes midway between two rows, the walk stays on the row that
    // it came from
    let mut r = Renderer::new();
    r.draw_line(1, p(0, 0), p(4, 2), p(4, 2), p(0, 0));
    let lit: Vec<usize> =
        r.buffer().iter().enumerate().filter(|(_, v)| **v == 1).map(|(i, _)| i).collect();
    let w = FIELD_WIDTH;
    assert_eq!(lit, vec![0, 1, w + 1, w + 2, w + 3, 2 * w + 3, 2 * w + 4]);
}

#[test]
fn draw_line_steep_edge() {
    // out from (0, 0) to (2, 4) the walk visits (0,0) (0,1) (1,2) (1,3) (2,4);
    // back it visits (2,4) (2,3) (1,2) (1,1) (0,0)
    let mut r = Renderer::new();
    r.draw_line(1, p(0, 0), p(2, 4), p(2, 4), p(0, 0));
    let lit: Vec<usize> =
        r.buffer().iter().enumerate().filter(|(_, v)| **v == 1).map(|(i, _)| i).collect();
    let w = FIELD_WIDTH;
    assert_eq!(lit, vec![0, w, w + 1, 2 * w + 1, 3 * w + 1, 3 * w + 2, 4 * w + 2]);
}

#[test]
fn draw_line_matches_reference_on_rotated_shapes() {
    check([p(100, 100), p(110, 95), p(210, 295), p(200, 300)]);
    check([p(50, 400), p(60, 410), p(300, 20), p(290, 10)]);
    check([p(10, 10), p(10, 10), p(200, 10), p(200, 10)]);
    check([p(10, 10), p(10, 10), p(10, 300), p(10, 300)]);
    check([p(192, 224), p(192, 224), p(192, 224), p(192, 224)]);
    check([p(0, 0), p(383, 0), p(383, 447), p(0, 447)]);
    check([p(300, 300), p(100, 301), p(101, 100), p(299, 99)]);
    check([p(7, 3), p(3, 7), p(11, 15), p(15, 11)]);
}

#[test]
fn draw_line_matches_reference_when_partly_outside() {
    check([p(-50, -50), p(50, -60), p(60, 40), p(-40, 50)]);
    check([p(350, 400), p(450, 420), p(430, 520), p(330, 500)]);
    check([p(-500, 100), p(900, 120), p(900, 130), p(-500, 110)]);
    check([p(100, -500), p(110, -500), p(110, 900), p(100, 900)]);
    check([p(-20, -20), p(-10, -20), p(-10, -10), p(-20, -10)]);
    check([p(1000, 1000), p(1010, 1000), p(1010, 1010), p(1000, 1010)]);
}

#[test]
fn draw_line_bound_at_column_minus_one_counts_as_unset() {
    // a row whose only visit lies at column -1 stays unset and is not filled
    check([p(-1, 5), p(-1, 5), p(-1, 5), p(-1, 5)]);
    let mut r = Renderer::new();
    r.draw_line(9, p(-1, 5), p(-1, 5), p(-1, 5), p(-1, 5));
    assert!(r.buffer().iter().all(|v| *v == 0));
    // a later visit in the row starts the bound afresh
    check([p(-1, 5), p(-1, 5), p(10, 5), p(10, 5)]);
    check([p(-1, 5), p(3, 9), p(10, 5), p(3, 1)]);
    check([p(-3, 0), p(1, 8), p(-1, 16), p(-5, 8)]);
}

#[test]
fn draw_line_twice_gives_the_same_image() {
    let corners = [p(100, 100), p(110, 95), p(210, 295), p(200, 300)];
    let mut r = Renderer::new();
    r.draw_rect(3, 150, 200, 40, 40);
    r.draw_line(8, corners[0], corners[1], corners[2], corners[3]);
    let once = r.buffer().clone();
    r.draw_line(8, corners[0], corners[1], corners[2], corners[3]);
    assert_eq!(r.buffer(), &once);
    // the rows in between two shapes do not leak from one call into the next
    r.draw_line(8, p(5, 5), p(5, 5), p(5, 5), p(5, 5));
    let mut want = once.clone();
    want[5 * FIELD_WIDTH + 5] = 8;
    assert_eq!(r.buffer(), &want);
}

#[test]
fn draw_line_keeps_pixels_outside_the_shape() {
    let mut r = Renderer::new();
    r.draw_rect(3, 150, 200, 400, 40);
    let before = r.buffer().clone();
    let corners = [p(100, 100), p(110, 95), p(210, 295), p(200, 300)];
    r.draw_line(8, corners[0], corners[1], corners[2], corners[3]);
    let shape = reference_fill(8, corners);
    for i in 0..FIELD_PIXELS {
        assert_eq!(r.buffer()[i], if shape[i] == 8 { 8 } else { before[i] });
    }
}
