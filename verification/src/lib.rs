//! Core of a deterministic bullet-hell environment for reinforcement
//! learning: the action bitmask, the software rasterizer that produces the
//! observation buffer, the bullet slot pool, the enemy's timing rules, the
//! wire format of observations and actions, and the pacing of an episode.
//!
//! Everything here works on integers and bytes and is proved against the
//! contracts stated on each function.

pub mod episode;
pub mod field;
pub mod input;
pub mod line;
pub mod pattern;
pub mod pixels;
pub mod pool;
pub mod protocol;
pub mod raster;
pub mod scene;
