//! The mathematical model of the machine state.
//!
//! `MachineView` mirrors every component of the interpreter as sequences
//! and plain values; all contracts in this crate are stated over it. The
//! well-formedness predicate `MachineView::wf` collects the structural
//! invariants that construction establishes and every operation
//! preserves.

use vstd::prelude::*;

verus! {

/// Number of addressable memory bytes.
pub const MEMORY_SIZE: usize = 4096;

/// Number of general-purpose registers `V0`..`VF`.
pub const VREGISTER_COUNT: usize = 16;

/// Number of framebuffer cells (64 columns by 32 rows, row-major).
pub const GFX_SIZE: usize = 2048;

/// Capacity of the call stack.
pub const STACK_SIZE: usize = 16;

/// Number of keys in the input matrix.
pub const KEY_SIZE: usize = 16;

/// Address at which the font sprite table is seeded.
pub const FONT_BASE: usize = 80;

/// Address at which ROM bytes are loaded and execution starts.
pub const PROGRAM_BASE: usize = 512;

/// Largest ROM that fits between the program base and the end of
/// memory.
pub const ROM_CAPACITY: usize = 3584;

/// The two logical states of the interpreter. `Running` is initial;
/// `AwaitingKey` suspends execution after a blocking key-read until the
/// external loop supplies a pressed key's index for register `target`.
#[derive(Clone, Copy, Debug, PartialEq, Eq, Structural)]
pub enum Mode {
    Running,
    AwaitingKey { target: u8 },
}

/// The state of the machine, one sequence or scalar per component.
#[verifier::ext_equal]
pub ghost struct MachineView {
    /// 4096 addressable bytes.
    pub memory: Seq<u8>,
    /// The sixteen registers `V0`..`VF`; `VF` doubles as the flag output.
    pub v: Seq<u8>,
    /// The index register `I`.
    pub i: u16,
    /// The program counter.
    pub pc: u16,
    /// 2048 framebuffer cells, row-major, each 0 or 1.
    pub gfx: Seq<u8>,
    /// Edge-triggered signal that the framebuffer changed since it was
    /// last consumed.
    pub draw_flag: bool,
    /// Whether the machine is running or suspended on a key-wait.
    pub mode: Mode,
    /// Delay timer, counting down once per running cycle when nonzero.
    pub delay_timer: u8,
    /// Sound timer, counting down once per running cycle when nonzero.
    pub sound_timer: u8,
    /// The sixteen call-stack slots; `stack[k]` for `k < sp` holds a
    /// pushed return address.
    pub stack: Seq<u16>,
    /// The stack pointer: number of occupied stack slots.
    pub sp: u8,
    /// The sixteen key states; nonzero means pressed.
    pub key: Seq<u8>,
}

impl MachineView {
    /// Structural invariants of the machine state: component sizes are
    /// fixed, framebuffer cells are single bits, stored return addresses
    /// leave room for the two-byte return-target opcode, the stack
    /// pointer never exceeds the capacity, and a key-wait records a valid
    /// register and a program counter that can still advance.
    pub open spec fn wf(self) -> bool {
        &&& self.memory.len() == MEMORY_SIZE
        &&& self.v.len() == VREGISTER_COUNT
        &&& self.gfx.len() == GFX_SIZE
        &&& self.stack.len() == STACK_SIZE
        &&& self.key.len() == KEY_SIZE
        &&& self.sp <= STACK_SIZE
        &&& forall|k: int| 0 <= k < GFX_SIZE ==> self.gfx[k] == 0 || self.gfx[k] == 1
        &&& forall|k: int| 0 <= k < STACK_SIZE ==> self.stack[k] <= 4094
        &&& match self.mode {
            Mode::Running => true,
            Mode::AwaitingKey { target } => target < 16 && self.pc <= 4094,
        }
    }
}

/// The 80-byte font table: sixteen 4x5-pixel sprites, one per
/// hexadecimal digit, five bytes each.
pub open spec fn font_table() -> Seq<u8> {
    seq![
        0xF0u8, 0x90, 0x90, 0x90, 0xF0, // 0
        0x20, 0x60, 0x20, 0x20, 0x70, // 1
        0xF0, 0x10, 0xF0, 0x80, 0xF0, // 2
        0xF0, 0x10, 0xF0, 0x10, 0xF0, // 3
        0x90, 0x90, 0xF0, 0x10, 0x10, // 4
        0xF0, 0x80, 0xF0, 0x10, 0xF0, // 5
        0xF0, 0x80, 0xF0, 0x90, 0xF0, // 6
        0xF0, 0x10, 0x20, 0x40, 0x40, // 7
        0xF0, 0x90, 0xF0, 0x90, 0xF0, // 8
        0xF0, 0x90, 0xF0, 0x10, 0xF0, // 9
        0xF0, 0x90, 0xF0, 0x90, 0x90, // A
        0xE0, 0x90, 0xE0, 0x90, 0xE0, // B
        0xF0, 0x80, 0x80, 0x80, 0xF0, // C
        0xE0, 0x90, 0x90, 0x90, 0xE0, // D
        0xF0, 0x80, 0xF0, 0x80, 0xF0, // E
        0xF0, 0x80, 0xF0, 0x80, 0x80, // F
    ]
}

/// The state of a freshly constructed machine: everything zero, the
/// machine running, and no font seeded yet.
pub open spec fn zeroed_view() -> MachineView {
    MachineView {
        memory: Seq::new(MEMORY_SIZE as nat, |k: int| 0u8),
        v: Seq::new(VREGISTER_COUNT as nat, |k: int| 0u8),
        i: 0,
        pc: 0,
        gfx: Seq::new(GFX_SIZE as nat, |k: int| 0u8),
        draw_flag: false,
        mode: Mode::Running,
        delay_timer: 0,
        sound_timer: 0,
        stack: Seq::new(STACK_SIZE as nat, |k: int| 0u16),
        sp: 0,
        key: Seq::new(KEY_SIZE as nat, |k: int| 0u8),
    }
}

/// Memory after `initialize`: all zero except the font table, seeded at
/// `FONT_BASE`.
pub open spec fn initialized_memory() -> Seq<u8> {
    Seq::new(
        MEMORY_SIZE as nat,
        |k: int|
            if FONT_BASE <= k < FONT_BASE + 80 {
                font_table()[k - FONT_BASE]
            } else {
                0u8
            },
    )
}

/// The state after `initialize`: everything zeroed, the font table
/// seeded, and the program counter at the program base.
pub open spec fn initialized_view() -> MachineView {
    MachineView { memory: initialized_memory(), pc: 512, ..zeroed_view() }
}

/// Memory after a ROM is copied verbatim starting at the program base;
/// every byte outside the ROM's window is unchanged.
pub open spec fn loaded_memory(mem: Seq<u8>, rom: Seq<u8>) -> Seq<u8> {
    Seq::new(
        MEMORY_SIZE as nat,
        |a: int|
            if PROGRAM_BASE <= a < PROGRAM_BASE + rom.len() {
                rom[a - PROGRAM_BASE]
            } else {
                mem[a]
            },
    )
}

} // verus!
