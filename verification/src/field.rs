//! Dimensions of the playfield and fixed sizes of what is drawn on it.

use vstd::prelude::*;

verus! {

/// Width of the playfield and of the framebuffer, in pixels.
pub const FIELD_WIDTH: usize = 384;

/// Height of the playfield and of the framebuffer, in pixels.
pub const FIELD_HEIGHT: usize = 448;

/// Number of pixels in the framebuffer: `FIELD_WIDTH * FIELD_HEIGHT`.
pub const FIELD_PIXELS: usize = 172032;

/// Number of slots in the bullet pool.
pub const BULLET_LIMIT: usize = 640;

/// Edge length of the player's hitbox.
pub const PLAYER_SIZE: i32 = 5;

/// Edge length of the enemy's hitbox and of its drawn square.
pub const ENEMY_SIZE: i32 = 25;

/// Packed colour of the player.
pub const PLAYER_COLOR: u32 = 0x00FF0000;

/// Packed colour of the enemy.
pub const ENEMY_COLOR: u32 = 0x0000FF00;

/// Packed colour of bullets.
pub const BULLET_COLOR: u32 = 0x000000FF;

} // verus!
