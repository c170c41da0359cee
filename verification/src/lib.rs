//! A verified CHIP-8 virtual machine core.
//!
//! The machine executes fixed two-byte instructions against 4 KB of memory,
//! sixteen 8-bit registers, a sixteen-level call stack and a 64x32 monochrome
//! framebuffer. Decoding, per-opcode state transitions and the tick step are
//! implemented here with full functional contracts; presentation, event
//! polling and file handling are left to an embedding front end.

pub mod arch;
pub mod cpu;
pub mod display;
pub mod instr;
pub mod keyboard;

use vstd::prelude::*;

verus! {

/// The number of bytes a loaded program image may occupy: everything from the
/// program start address to the end of memory.
pub open spec fn max_rom_len() -> int {
    arch::MEM_SIZE - arch::PROGRAM_START
}

} // verus!
