//! Dimensions of the CHIP-8 machine.
use vstd::prelude::*;

verus! {

/// Bytes of addressable memory.
pub const MEMORY_LENGTH: usize = 0x1000;

/// Width of the display in pixels.
pub const SCREEN_WIDTH: usize = 64;

/// Height of the display in pixels.
pub const SCREEN_HEIGHT: usize = 32;

/// Number of pixels of the display (`SCREEN_WIDTH * SCREEN_HEIGHT`).
pub const SCREEN_SIZE: usize = 2048;

/// Address where the built-in hexadecimal font is stored.
pub const FONT_START: usize = 0x050;

/// Address where programs are loaded and execution starts.
pub const PROGRAM_START: usize = 0x200;

} // verus!
