use bulletrl::field::{
    BULLET_COLOR, ENEMY_COLOR, FIELD_HEIGHT, FIELD_PIXELS, FIELD_WIDTH, PLAYER_COLOR,
};
use bulletrl::line::Point;
use bulletrl::raster::Renderer;
use bulletrl::scene::BulletMark;

fn count(r: &Renderer, color: u32) -> usize {
    r.buffer().iter().filter(|p| **p == color).count()
}

fn expect_box(r: &Renderer, color: u32, l: i64, rr: i64, t: i64, b: i64) {
    for y in 0..FIELD_HEIGHT {
        for x in 0..FIELD_WIDTH {
            let inside = l <= x as i64 && x as i64 <= rr && t <= y as i64 && y as i64 <= b;
            assert_eq!(
                r.buffer()[y * FIELD_WIDTH + x],
                if inside { color } else { 0 },
                "pixel ({}, {})",
                x,
                y
            );
        }
    }
}

#[test]
fn new_renderer_is_blank() {
    let r = Renderer::new();
    assert_eq!(r.buffer().len(), FIELD_PIXELS);
    assert_eq!(FIELD_PIXELS, FIELD_WIDTH * FIELD_HEIGHT);
    assert!(r.buffer().iter().all(|p| *p == 0));
}

#[test]
fn clear_resets_every_pixel() {
    let mut r = Renderer::new();
    r.draw_rect(9, 100, 100, 50, 50);
    r.draw_rect(3, 0, 0, 10, 10);
    assert!(count(&r, 9) > 0);
    r.clear();
    assert!(r.buffer().iter().all(|p| *p == 0));
}

#[test]
fn draw_rect_in_bounds_fills_exact_box() {
    let mut r = Renderer::new();
    r.draw_rect(7, 10, 20, 5, 3);
    // half-width 2, half-height 1: columns 8..=12, rows 19..=21
    assert_eq!(count(&r, 7), 5 * 3);
    expect_box(&r, 7, 8, 12, 19, 21);
}

#[test]
fn draw_rect_even_size_rounds_half_down() {
    let mut r = Renderer::new();
    r.draw_rect(7, 50, 60, 4, 6);
    // half-width 2, half-height 3
    expect_box(&r, 7, 48, 52, 57, 63);
    assert_eq!(count(&r, 7), 5 * 7);
}

#[test]
fn draw_rect_is_clipped_at_the_corner() {
    let mut r = Renderer::new();
    r.draw_rect(5, 0, 0, 6, 6);
    expect_box(&r, 5, 0, 3, 0, 3);
    assert_eq!(count(&r, 5), 16);
    let mut r = Renderer::new();
    r.draw_rect(5, 383, 447, 6, 6);
    expect_box(&r, 5, 380, 383, 444, 447);
}

#[test]
fn draw_rect_outside_changes_nothing() {
    let mut r = Renderer::new();
    r.draw_rect(4, 30, 30, 9, 9);
    let before = r.buffer().clone();
    r.draw_rect(9, -100, 100, 10, 10);
    r.draw_rect(9, 1000, 100, 10, 10);
    r.draw_rect(9, 100, -50, 10, 10);
    r.draw_rect(9, 100, 5000, 10, 10);
    r.draw_rect(9, i32::MAX, i32::MAX, i32::MAX, i32::MAX);
    r.draw_rect(9, i32::MIN, i32::MIN, 3, 3);
    assert_eq!(r.buffer(), &before);
}

#[test]
fn draw_rect_negative_size_is_empty() {
    let mut r = Renderer::new();
    r.draw_rect(9, 100, 100, -10, 10);
    r.draw_rect(9, 100, 100, 10, -10);
    assert_eq!(count(&r, 9), 0);
    // a half of -1 / 2 rounds toward zero: a single column remains
    r.draw_rect(9, 100, 100, -1, 0);
    expect_box(&r, 9, 100, 100, 100, 100);
}

#[test]
fn draw_rect_extreme_size_covers_everything() {
    let mut r = Renderer::new();
    r.draw_rect(2, 0, 0, i32::MAX, i32::MAX);
    assert_eq!(count(&r, 2), FIELD_PIXELS);
}

#[test]
fn later_rect_hides_earlier() {
    let mut r = Renderer::new();
    r.draw_rect(1, 10, 10, 4, 4);
    r.draw_rect(2, 12, 10, 4, 4);
    assert_eq!(r.buffer()[10 * FIELD_WIDTH + 8], 1);
    assert_eq!(r.buffer()[10 * FIELD_WIDTH + 9], 1);
    assert_eq!(r.buffer()[10 * FIELD_WIDTH + 10], 2);
    assert_eq!(r.buffer()[10 * FIELD_WIDTH + 14], 2);
}

#[test]
fn sprites_have_their_sizes_and_colors() {
    let mut r = Renderer::new();
    r.draw_player(192, 398);
    expect_box(&r, PLAYER_COLOR, 180, 204, 386, 410);
    assert_eq!(PLAYER_COLOR, 0x00FF0000);
    let mut r = Renderer::new();
    r.draw_enemy(192, 50);
    expect_box(&r, ENEMY_COLOR, 180, 204, 38, 62);
    assert_eq!(ENEMY_COLOR, 0x0000FF00);
    let mut r = Renderer::new();
    r.draw_bullet(100, 200, 5, 5);
    // drawn 15 wide: half 7
    expect_box(&r, BULLET_COLOR, 93, 107, 193, 207);
    assert_eq!(BULLET_COLOR, 0x000000FF);
}

#[test]
fn draw_bullet_with_huge_size_does_not_wrap() {
    let mut r = Renderer::new();
    r.draw_bullet(10, 10, i32::MAX, i32::MAX);
    assert_eq!(count(&r, BULLET_COLOR), FIELD_PIXELS);
    let mut r = Renderer::new();
    r.draw_bullet(10, 10, i32::MIN, 5);
    assert_eq!(count(&r, BULLET_COLOR), 0);
}

#[test]
fn scene_draws_player_then_bullets_then_enemy() {
    let mut r = Renderer::new();
    r.draw_rect(77, 300, 300, 9, 9);
    let bullets = vec![
        BulletMark { x: 192, y: 398, size_x: 5, size_y: 5 },
        BulletMark { x: 192, y: 60, size_x: 5, size_y: 5 },
        BulletMark { x: 20, y: 20, size_x: 5, size_y: 5 },
        BulletMark { x: 24, y: 20, size_x: 3, size_y: 3 },
    ];
    r.draw_scene(Point { x: 192, y: 398 }, &bullets, Point { x: 192, y: 50 });

    let mut want = Renderer::new();
    want.draw_player(192, 398);
    for b in &bullets {
        want.draw_bullet(b.x, b.y, b.size_x, b.size_y);
    }
    want.draw_enemy(192, 50);
    assert_eq!(r.buffer(), want.buffer());

    // what was there before the frame is gone
    assert_eq!(r.buffer()[300 * FIELD_WIDTH + 300], 0);
    // the bullet on the player hides it, the enemy hides the bullet under it
    assert_eq!(r.buffer()[398 * FIELD_WIDTH + 192], BULLET_COLOR);
    assert_eq!(r.buffer()[386 * FIELD_WIDTH + 180], PLAYER_COLOR);
    assert_eq!(r.buffer()[60 * FIELD_WIDTH + 192], ENEMY_COLOR);
    assert_eq!(r.buffer()[66 * FIELD_WIDTH + 192], BULLET_COLOR);
}

#[test]
fn scene_without_bullets() {
    let mut r = Renderer::new();
    r.draw_scene(Point { x: 10, y: 10 }, &Vec::new(), Point { x: 300, y: 100 });
    assert_eq!(count(&r, PLAYER_COLOR), 23 * 23);
    assert_eq!(count(&r, ENEMY_COLOR), 25 * 25);
    assert_eq!(count(&r, 0), FIELD_PIXELS - 23 * 23 - 25 * 25);
}
