//! Fixed parameters of the virtual machine architecture.

use vstd::prelude::*;

verus! {

/// Total number of addressable memory bytes.
pub const MEM_SIZE: usize = 4096;

/// Address at which a program image is loaded, and the initial program counter.
pub const PROGRAM_START: usize = 0x200;

/// Width of the framebuffer in pixels.
pub const DISPLAY_WIDTH: usize = 64;

/// Height of the framebuffer in pixels.
pub const DISPLAY_HEIGHT: usize = 32;

/// Number of general-purpose registers.
pub const NUM_REGISTERS: usize = 16;

/// Number of entries in the call stack.
pub const STACK_SIZE: usize = 16;

/// Number of virtual keys.
pub const NUM_KEYS: usize = 16;

/// Base address of the built-in font table.
pub const FONT_BASE: usize = 0x50;

/// Number of bytes per font glyph.
pub const FONT_GLYPH_SIZE: usize = 5;

/// Milliseconds per frame at the fixed tick rate (60 Hz, truncated).
pub const MILLIS_PER_FRAME: u64 = 16;

} // verus!
