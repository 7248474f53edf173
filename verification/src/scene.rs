//! Drawing one frame: the player, then the bullets, then the enemy.

use crate::line::Point;
use crate::raster::{blank, paint_rect, Renderer};
use crate::field::{BULLET_COLOR, ENEMY_COLOR, ENEMY_SIZE, PLAYER_COLOR, PLAYER_SIZE};
use vstd::prelude::*;

verus! {

/// Where a bullet is drawn and how large its hitbox is, in whole pixels.
#[derive(Clone, Copy, Debug, PartialEq, Eq, Structural)]
pub struct BulletMark {
    pub x: i32,
    pub y: i32,
    pub size_x: i32,
    pub size_y: i32,
}

/// `img` with one bullet drawn over it.
pub open spec fn paint_bullet(img: Seq<u32>, mark: BulletMark) -> Seq<u32> {
    paint_rect(img, BULLET_COLOR, mark.x as int, mark.y as int, 3 * mark.size_x, 3 * mark.size_y)
}

/// `img` with the first `n` bullets drawn over it in order, so that a later
/// bullet hides an earlier one where they meet.
pub open spec fn paint_bullets(img: Seq<u32>, marks: Seq<BulletMark>, n: nat) -> Seq<u32>
    decreases n,
{
    if n == 0 {
        img
    } else {
        paint_bullet(paint_bullets(img, marks, (n - 1) as nat), marks[n - 1])
    }
}

/// The frame that shows the player, the bullets and the enemy. The enemy is
/// drawn last and hides what lies under it; the player is drawn first.
pub open spec fn scene_image(player: Point, bullets: Seq<BulletMark>, enemy: Point) -> Seq<u32> {
    let with_player = paint_rect(
        blank(),
        PLAYER_COLOR,
        player.x as int,
        player.y as int,
        5 * PLAYER_SIZE,
        5 * PLAYER_SIZE,
    );
    let with_bullets = paint_bullets(with_player, bullets, bullets.len());
    paint_rect(
        with_bullets,
        ENEMY_COLOR,
        enemy.x as int,
        enemy.y as int,
        ENEMY_SIZE as int,
        ENEMY_SIZE as int,
    )
}

impl Renderer {
    /// Replaces the image by the frame for the given positions.
    pub fn draw_scene(&mut self, player: Point, bullets: &Vec<BulletMark>, enemy: Point)
        ensures
            final(self)@ == scene_image(player, bullets@, enemy),
    {
        self.clear();
        self.draw_player(player.x, player.y);
        let ghost with_player = self@;
        let mut i: usize = 0;
        while i < bullets.len()
            invariant
                i <= bullets.len(),
                self@ == paint_bullets(with_player, bullets@, i as nat),
            decreases bullets.len() - i,
        {
            let mark: BulletMark = bullets[i];
            self.draw_bullet(mark.x, mark.y, mark.size_x, mark.size_y);
            i += 1;
        }
        self.draw_enemy(enemy.x, enemy.y);
    }
}

} // verus!
