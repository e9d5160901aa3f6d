//! Failure conditions of the interpreter.
//!
//! Emulation is deterministic given the ROM and its inputs, so every error
//! here marks either an unsupported ROM feature or a bug in the ROM, never
//! a transient fault. No error is silently recovered: each carries the
//! context (opcode, program counter, offending address) needed to diagnose
//! it.

use vstd::prelude::*;

verus! {

/// A fatal condition raised while loading a ROM or executing a cycle.
#[derive(Clone, Copy, Debug, PartialEq, Eq, Structural)]
pub enum Chip8Error {
    /// The program counter does not leave room for a two-byte opcode
    /// inside the 4096 addressable bytes.
    FetchOutOfBounds { pc: u16 },
    /// The fetched opcode is not in the standard CHIP-8 instruction set.
    Decode { opcode: u16, pc: u16 },
    /// An instruction computed a memory address at or beyond 4096.
    MemoryOutOfBounds { address: u32, opcode: u16, pc: u16 },
    /// A subroutine call would push beyond the sixteen stack slots.
    StackOverflow { opcode: u16, pc: u16 },
    /// A subroutine return was executed with an empty call stack.
    StackUnderflow { opcode: u16, pc: u16 },
    /// A key-skip instruction read a register holding a value outside the
    /// sixteen-key matrix.
    KeyOutOfBounds { index: u8, opcode: u16, pc: u16 },
    /// The ROM would place bytes beyond address 4095.
    RomTooLarge { len: usize },
}

} // verus!
