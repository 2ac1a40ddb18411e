//! A grid-based first-person raycasting renderer core.
//!
//! The engine turns a rectangular tile grid and a camera pose into a
//! projected first-person view: one wall ray per screen column (a DDA grid
//! walk), one floor/ceiling scan per screen row, and a billboard sprite
//! pass that composites entities against the per-column depth buffer.
//!
//! All world quantities (positions, directions, distances) are signed
//! 16.16 fixed-point numbers held in `i64`: the integer `v` stands for the
//! real value `v / 65536`. See [`fixed`].
//!
//! The renderer produces plain data: an RGBA framebuffer for the
//! floor/ceiling pass and lists of one-pixel-wide blit commands for walls
//! and sprites. Asset decoding, windowing, input, and the frame loop live
//! outside this crate and only hand values in and out.

use vstd::prelude::*;

pub mod animation;
pub mod camera;
pub mod data;
pub mod fixed;
pub mod floor;
pub mod game;
pub mod sprite_render;
pub mod sprites;
pub mod textures;
pub mod walls;

verus! {

/// Width of the rendered view in pixels.
pub const SCREEN_WIDTH: i64 = 800;

/// Height of the rendered view in pixels.
pub const SCREEN_HEIGHT: i64 = 600;

/// Width of one wall or floor texture tile in texels. A power of two, so
/// texel coordinates wrap by masking.
pub const TEX_WIDTH: u32 = 64;

/// Height of one wall or floor texture tile in texels.
pub const TEX_HEIGHT: u32 = 64;

/// Bound on world position coordinates: the grid is at most 1024 cells
/// wide, so every in-grid fixed-point coordinate is below
/// `1024 * FP_ONE`.
pub const POS_BOUND: i64 = 0x400_0000;

/// Bound on direction, camera-plane, velocity and scale components (the
/// value 4; unit directions and sub-unit planes stay far under it).
pub const DIR_BOUND: i64 = 0x4_0000;

} // verus!
