//! A verified CHIP-8 interpreter core.
//!
//! The `Chip8` machine owns all interpreter state: 4096 bytes of memory,
//! sixteen 8-bit registers, an index register, a program counter, a call
//! stack, two countdown timers, a 64x32 monochrome framebuffer and a
//! 16-key input matrix. Every instruction of the standard CHIP-8 set is
//! executed by `emulate_cycle`, whose effect is pinned down by the
//! specification `cycle_spec`.

pub mod error;
pub mod instr;
pub mod laws;
pub mod machine;
pub mod semantics;
pub mod state;
