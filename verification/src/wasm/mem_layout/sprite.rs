//! Layout of each sprite's block of memory.

use vstd::prelude::*;

verus! {

/// x-position of the sprite (f64).
pub const X: u32 = 0;

/// y-position of the sprite (f64).
pub const Y: u32 = 8;

/// Hue component of the pen colour, 0 to 100 (f32).
pub const PEN_COLOR: u32 = 16;

/// Saturation component of the pen colour, 0 to 100 (f32).
pub const PEN_SATURATION: u32 = 20;

/// Value component of the pen colour, 0 to 100 (f32).
pub const PEN_BRIGHTNESS: u32 = 24;

/// Transparency of the pen (f32).
pub const PEN_TRANSPARENCY: u32 = 28;

/// Red component of the pen colour as rgba, 0 to 1 (f32).
pub const PEN_COLOR_R: u32 = 32;

/// Green component of the pen colour as rgba, 0 to 1 (f32).
pub const PEN_COLOR_G: u32 = 36;

/// Blue component of the pen colour as rgba, 0 to 1 (f32).
pub const PEN_COLOR_B: u32 = 40;

/// Alpha component of the pen colour as rgba, 0 to 1 (f32).
pub const PEN_COLOR_A: u32 = 44;

/// Radius of the pen (f64).
pub const PEN_SIZE: u32 = 48;

/// Non-zero if the pen is down (i8).
pub const PEN_DOWN: u32 = 56;

/// Non-zero if the sprite is visible (i8).
pub const VISIBLE: u32 = 57;

/// Two bytes of padding (i16).
pub const PADDING: u32 = 58;

/// Current costume number, counted from 0 (i32).
pub const COSTUME: u32 = 60;

/// Size of the sprite, 100 being its own size (f64).
pub const SIZE: u32 = 64;

/// Rotation of the sprite in Scratch's degrees, 0 being up and 90 right (f64).
pub const ROTATION: u32 = 72;

/// Size of each sprite's block.
pub const BLOCK_SIZE: u32 = 80;

} // verus!
