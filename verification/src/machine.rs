//! The interpreter engine: the `Chip8` machine and its operations.
//!
//! The machine owns all state and exposes a cycle-stepping interface plus
//! the accessors and mutators an external driving loop needs: the
//! framebuffer snapshot, the key matrix, the draw-dirty flag and the
//! key-wait state. Every operation's effect is stated over the machine's
//! view, a `MachineView`, and the state invariant `MachineView::wf` is
//! maintained by every operation.

use vstd::prelude::*;

use rand::Rng;

use crate::error::Chip8Error;
use crate::instr::{decode, instr_wf, Instr};
use crate::semantics::{
    cycle_matches, draw_row_step, draw_sprite_step, exec_instr_spec, fetch_opcode,
    lemma_draw_sprite_step_wf, load_regs_v, store_regs_mem, tick_spec,
};
use crate::state::{
    font_table, initialized_memory, initialized_view, loaded_memory, zeroed_view, MachineView,
    Mode, FONT_BASE, GFX_SIZE, KEY_SIZE, MEMORY_SIZE, PROGRAM_BASE, ROM_CAPACITY, STACK_SIZE,
    VREGISTER_COUNT,
};

verus! {

/// The CHIP-8 virtual machine: memory, registers, index register,
/// program counter, framebuffer, timers, call stack and key matrix, all
/// created at construction and mutated exclusively through the methods
/// below.
pub struct Chip8 {
    memory: Vec<u8>,
    v: Vec<u8>,
    i: u16,
    pc: u16,
    gfx: Vec<u8>,
    draw_sema: bool,
    mode: Mode,
    delay_timer: u8,
    sound_timer: u8,
    stack: Vec<u16>,
    sp: u8,
    key: Vec<u8>,
}

impl View for Chip8 {
    type V = MachineView;

    closed spec fn view(&self) -> MachineView {
        MachineView {
            memory: self.memory@,
            v: self.v@,
            i: self.i,
            pc: self.pc,
            gfx: self.gfx@,
            draw_flag: self.draw_sema,
            mode: self.mode,
            delay_timer: self.delay_timer,
            sound_timer: self.sound_timer,
            stack: self.stack@,
            sp: self.sp,
            key: self.key@,
        }
    }
}

/// A vector of `n` zero bytes.
fn zero_bytes(n: usize) -> (r: Vec<u8>)
    ensures
        r@ == Seq::new(n as nat, |k: int| 0u8),
{
    let mut v: Vec<u8> = Vec::new();
    let mut j: usize = 0;
    while j < n
        invariant
            j <= n,
            v@.len() == j,
            forall|k: int| 0 <= k < j ==> v@[k] == 0,
        decreases n - j,
    {
        v.push(0);
        j += 1;
    }
    proof {
        assert(v@ =~= Seq::new(n as nat, |k: int| 0u8));
    }
    v
}

/// A vector of `n` zero words.
fn zero_words(n: usize) -> (r: Vec<u16>)
    ensures
        r@ == Seq::new(n as nat, |k: int| 0u16),
{
    let mut v: Vec<u16> = Vec::new();
    let mut j: usize = 0;
    while j < n
        invariant
            j <= n,
            v@.len() == j,
            forall|k: int| 0 <= k < j ==> v@[k] == 0,
        decreases n - j,
    {
        v.push(0);
        j += 1;
    }
    proof {
        assert(v@ =~= Seq::new(n as nat, |k: int| 0u16));
    }
    v
}

/// The font table as a vector.
fn font_vec() -> (r: Vec<u8>)
    ensures
        r@ == font_table(),
{
    let v: Vec<u8> = vec![
        0xF0, 0x90, 0x90, 0x90, 0xF0, // 0
        0x20, 0x60, 0x20, 0x20, 0x70, // 1
        0xF0, 0x10, 0xF0, 0x80, 0xF0, // 2
        0xF0, 0x10, 0xF0, 0x10, 0xF0, // 3
        0x90, 0x90, 0xF0, 0x10, 0x10, // 4
        0xF0, 0x80, 0xF0, 0x10, 0xF0, // 5
        0xF0, 0x80, 0xF0, 0x90, 0xF0, // 6
        0xF0, 0x10, 0x20, 0x40, 0x40, // 7
        0xF0, 0x90, 0xF0, 0x90, 0xF0, // 8
        0xF0, 0x90, 0xF0, 0x10, 0xF0, // 9
        0xF0, 0x90, 0xF0, 0x90, 0x90, // A
        0xE0, 0x90, 0xE0, 0x90, 0xE0, // B
        0xF0, 0x80, 0x80, 0x80, 0xF0, // C
        0xE0, 0x90, 0x90, 0x90, 0xE0, // D
        0xF0, 0x80, 0xF0, 0x80, 0xF0, // E
        0xF0, 0x80, 0xF0, 0x80, 0x80, // F
    ];
    proof {
        assert(v@ =~= font_table());
    }
    v
}

/// Memory as `initialize` seeds it: all zero but for the font table.
fn seeded_memory() -> (r: Vec<u8>)
    ensures
        r@ == initialized_memory(),
{
    let mut mem = zero_bytes(MEMORY_SIZE);
    let font = font_vec();
    let mut j: usize = 0;
    while j < 80
        invariant
            j <= 80,
            mem@.len() == MEMORY_SIZE,
            font@ == font_table(),
            forall|a: int| 0 <= a < MEMORY_SIZE && !(FONT_BASE <= a < FONT_BASE + j) ==> mem@[a]
                == 0,
            forall|a: int| FONT_BASE <= a < FONT_BASE + j ==> mem@[a] == font_table()[a
                - FONT_BASE],
        decreases 80 - j,
    {
        mem.set(FONT_BASE + j, font[j]);
        j += 1;
    }
    proof {
        assert(mem@ =~= initialized_memory());
    }
    mem
}

/// XOR the 8 pixels of one sprite row onto the framebuffer at column
/// `cx` of absolute row `ry`, clipping at column 64, and accumulate the
/// collision flag starting from `vf`.
fn draw_row_into(gfx: &mut Vec<u8>, row_byte: u8, cx: u8, ry: usize, vf: bool) -> (r: bool)
    requires
        old(gfx)@.len() == 2048,
        forall|k: int| 0 <= k < 2048 ==> old(gfx)@[k] == 0 || old(gfx)@[k] == 1,
        ry < 32,
    ensures
        final(gfx)@ == draw_row_step(old(gfx)@, vf, row_byte, cx as int, ry as int, 8).0,
        r == draw_row_step(old(gfx)@, vf, row_byte, cx as int, ry as int, 8).1,
        final(gfx)@.len() == 2048,
        forall|k: int| 0 <= k < 2048 ==> final(gfx)@[k] == 0 || final(gfx)@[k] == 1,
{
    let ghost g0 = gfx@;
    let mut out = vf;
    let mut dx: usize = 0;
    while dx < 8
        invariant
            dx <= 8,
            ry < 32,
            gfx@.len() == 2048,
            forall|k: int| 0 <= k < 2048 ==> gfx@[k] == 0 || gfx@[k] == 1,
            gfx@ == draw_row_step(g0, vf, row_byte, cx as int, ry as int, dx as nat).0,
            out == draw_row_step(g0, vf, row_byte, cx as int, ry as int, dx as nat).1,
        decreases 8 - dx,
    {
        if (cx as usize) + dx < 64 {
            let mask: u8 = 0x80u8 >> (dx as u8);
            if row_byte & mask != 0 {
                let idx: usize = ry * 64 + cx as usize + dx;
                let cur = gfx[idx];
                if cur == 1 {
                    out = true;
                }
                gfx.set(
                    idx,
                    if cur == 1 {
                        0
                    } else {
                        1
                    },
                );
            }
        }
        dx += 1;
    }
    out
}

/// Draw an `n`-row sprite read from memory at `i` onto the framebuffer
/// at `(cx, cy)`, clipping rows at row 32, and report whether any drawn
/// pixel collided with a set cell.
fn draw_sprite_into(gfx: &mut Vec<u8>, mem: &Vec<u8>, i: u16, cx: u8, cy: u8, n: u8) -> (col: bool)
    requires
        old(gfx)@.len() == 2048,
        forall|k: int| 0 <= k < 2048 ==> old(gfx)@[k] == 0 || old(gfx)@[k] == 1,
        mem@.len() == 4096,
        n < 16,
        n > 0 ==> i + n <= 4096,
    ensures
        final(gfx)@ == draw_sprite_step(
            old(gfx)@,
            false,
            mem@,
            i as int,
            cx as int,
            cy as int,
            n as nat,
        ).0,
        col == draw_sprite_step(
            old(gfx)@,
            false,
            mem@,
            i as int,
            cx as int,
            cy as int,
            n as nat,
        ).1,
        final(gfx)@.len() == 2048,
        forall|k: int| 0 <= k < 2048 ==> final(gfx)@[k] == 0 || final(gfx)@[k] == 1,
{
    let ghost g0 = gfx@;
    let mut col = false;
    let mut r: usize = 0;
    while r < n as usize
        invariant
            r <= n as usize,
            n < 16,
            mem@.len() == 4096,
            n > 0 ==> i + n <= 4096,
            gfx@.len() == 2048,
            forall|k: int| 0 <= k < 2048 ==> gfx@[k] == 0 || gfx@[k] == 1,
            gfx@ == draw_sprite_step(g0, false, mem@, i as int, cx as int, cy as int, r as nat).0,
            col == draw_sprite_step(g0, false, mem@, i as int, cx as int, cy as int, r as nat).1,
        decreases n as usize - r,
    {
        if (cy as usize) + r < 32 {
            let row_byte = mem[i as usize + r];
            col = draw_row_into(gfx, row_byte, cx, (cy as usize) + r, col);
        }
        r += 1;
    }
    col
}

/// Store registers `V0..=VX` into memory at addresses `i`..`i + x`.
fn store_regs_into(mem: &mut Vec<u8>, v: &Vec<u8>, i: usize, x: usize)
    requires
        old(mem)@.len() == 4096,
        v@.len() == 16,
        x < 16,
        i + x < 4096,
    ensures
        final(mem)@ == store_regs_mem(old(mem)@, v@, i as int, x as int),
        final(mem)@.len() == 4096,
{
    let mut j: usize = 0;
    while j < x + 1
        invariant
            j <= x + 1,
            x < 16,
            i + x < 4096,
            v@.len() == 16,
            mem@.len() == 4096,
            forall|a: int|
                0 <= a < 4096 && !(i <= a < i + j) ==> mem@[a] == old(mem)@[a],
            forall|a: int| i <= a < i + j ==> mem@[a] == v@[a - i],
        decreases x + 1 - j,
    {
        mem.set(i + j, v[j]);
        j += 1;
    }
    proof {
        assert(mem@ =~= store_regs_mem(old(mem)@, v@, i as int, x as int));
    }
}

/// Fill registers `V0..=VX` from memory at addresses `i`..`i + x`.
fn load_regs_into(v: &mut Vec<u8>, mem: &Vec<u8>, i: usize, x: usize)
    requires
        old(v)@.len() == 16,
        mem@.len() == 4096,
        x < 16,
        i + x < 4096,
    ensures
        final(v)@ == load_regs_v(old(v)@, mem@, i as int, x as int),
        final(v)@.len() == 16,
{
    let mut j: usize = 0;
    while j < x + 1
        invariant
            j <= x + 1,
            x < 16,
            i + x < 4096,
            mem@.len() == 4096,
            v@.len() == 16,
            forall|k: int| 0 <= k < j ==> v@[k] == mem@[i + k],
            forall|k: int| j <= k < 16 ==> v@[k] == old(v)@[k],
        decreases x + 1 - j,
    {
        v.set(j, mem[i + j]);
        j += 1;
    }
    proof {
        assert(v@ =~= load_regs_v(old(v)@, mem@, i as int, x as int));
    }
}

impl Chip8 {
    /// A fresh machine: every component zeroed, the machine running.
    /// `initialize` must run before a program is loaded and executed.
    pub fn new() -> (r: Chip8)
        ensures
            r@ == zeroed_view(),
            r@.wf(),
    {
        let c = Chip8 {
            memory: zero_bytes(MEMORY_SIZE),
            v: zero_bytes(VREGISTER_COUNT),
            i: 0,
            pc: 0,
            gfx: zero_bytes(GFX_SIZE),
            draw_sema: false,
            mode: Mode::Running,
            delay_timer: 0,
            sound_timer: 0,
            stack: zero_words(STACK_SIZE),
            sp: 0,
            key: zero_bytes(KEY_SIZE),
        };
        proof {
            assert(c@ =~= zeroed_view());
        }
        c
    }

    /// Zero all memory and register contents, seed the font table, and
    /// point the program counter at the program base.
    pub fn initialize(&mut self)
        ensures
            final(self)@ == initialized_view(),
            final(self)@.wf(),
    {
        self.mode = Mode::Running;
        self.pc = 512;
        self.i = 0;
        self.sp = 0;
        self.draw_sema = false;
        self.delay_timer = 0;
        self.sound_timer = 0;
        self.gfx = zero_bytes(GFX_SIZE);
        self.stack = zero_words(STACK_SIZE);
        self.v = zero_bytes(VREGISTER_COUNT);
        self.key = zero_bytes(KEY_SIZE);
        self.memory = seeded_memory();
        proof {
            assert(self@ =~= initialized_view());
        }
    }

    /// A snapshot of the 2048 framebuffer cells, row-major, each 0 or 1.
    pub fn get_gfx(&self) -> (r: Vec<u8>)
        requires
            self@.wf(),
        ensures
            r@ == self@.gfx,
    {
        let mut out: Vec<u8> = Vec::new();
        let mut j: usize = 0;
        while j < GFX_SIZE
            invariant
                j <= GFX_SIZE,
                self@.gfx.len() == GFX_SIZE,
                out@.len() == j,
                forall|k: int| 0 <= k < j ==> out@[k] == self@.gfx[k],
            decreases GFX_SIZE - j,
        {
            out.push(self.gfx[j]);
            j += 1;
        }
        proof {
            assert(out@ =~= self@.gfx);
        }
        out
    }

    /// Overwrite the sixteen key states wholesale; nonzero means pressed.
    pub fn update_keystate(&mut self, key: &[u8; 16])
        requires
            old(self)@.wf(),
        ensures
            final(self)@ == (MachineView { key: key@, ..old(self)@ }),
            final(self)@.wf(),
    {
        let mut j: usize = 0;
        while j < 16
            invariant
                j <= 16,
                self@ == (MachineView { key: self@.key, ..old(self)@ }),
                self@.wf(),
                forall|k: int| 0 <= k < j ==> self@.key[k] == key@[k],
                forall|k: int| j <= k < 16 ==> self@.key[k] == old(self)@.key[k],
            decreases 16 - j,
        {
            self.key.set(j, key[j]);
            j += 1;
        }
        proof {
            assert(self@.key =~= key@);
            assert(self@ =~= (MachineView { key: key@, ..old(self)@ }));
        }
    }

    /// Whether the key-wait state is active: true while the machine is
    /// suspended on a blocking key read, until a key press is supplied.
    pub fn check_key_sema(&self) -> (r: bool)
        ensures
            r == (self@.mode is AwaitingKey),
    {
        match self.mode {
            Mode::AwaitingKey { .. } => true,
            Mode::Running => false,
        }
    }

    /// Consume the draw-dirty flag: report whether an instruction
    /// mutated the framebuffer since the last consumption, and clear the
    /// flag, so a set flag is consumed at most once.
    pub fn check_draw_sema(&mut self) -> (r: bool)
        ensures
            r == old(self)@.draw_flag,
            final(self)@ == (MachineView { draw_flag: false, ..old(self)@ }),
    {
        let r = self.draw_sema;
        self.draw_sema = false;
        proof {
            assert(self@ =~= (MachineView { draw_flag: false, ..old(self)@ }));
        }
        r
    }

    /// Resolve a key-wait: store the pressed key's index in the register
    /// the blocking read named, advance past that instruction, and
    /// resume running. On a machine that is not suspended this does
    /// nothing.
    pub fn set_register_to_keypress(&mut self, key_index: u8)
        requires
            old(self)@.wf(),
        ensures
            (old(self)@.mode matches Mode::AwaitingKey { target } ==> final(self)@
                == (MachineView {
                v: old(self)@.v.update(target as int, key_index),
                pc: ((old(self)@.pc + 2) as u16),
                mode: Mode::Running,
                ..old(self)@
            })),
            old(self)@.mode is Running ==> final(self)@ == old(self)@,
            final(self)@.wf(),
    {
        match self.mode {
            Mode::AwaitingKey { target } => {
                self.mode = Mode::Running;
                self.v.set(target as usize, key_index);
                self.pc = self.pc + 2;
                proof {
                    assert(self@ =~= (MachineView {
                        v: old(self)@.v.update(target as int, key_index),
                        pc: ((old(self)@.pc + 2) as u16),
                        mode: Mode::Running,
                        ..old(self)@
                    }));
                }
            },
            Mode::Running => {},
        }
    }

    /// The value of register `VX` for `idx < 16`, `None` otherwise.
    pub fn get_register(&self, idx: usize) -> (r: Option<u8>)
        requires
            self@.wf(),
        ensures
            idx < 16 ==> r == Some(self@.v[idx as int]),
            idx >= 16 ==> r is None,
    {
        if idx < 16 {
            Some(self.v[idx])
        } else {
            None
        }
    }

    /// The program counter.
    pub fn get_pc(&self) -> (r: u16)
        ensures
            r == self@.pc,
    {
        self.pc
    }

    /// The index register `I`.
    pub fn get_index(&self) -> (r: u16)
        ensures
            r == self@.i,
    {
        self.i
    }

    /// The delay timer.
    pub fn get_delay_timer(&self) -> (r: u8)
        ensures
            r == self@.delay_timer,
    {
        self.delay_timer
    }

    /// The sound timer.
    pub fn get_sound_timer(&self) -> (r: u8)
        ensures
            r == self@.sound_timer,
    {
        self.sound_timer
    }

    /// The stack pointer: the number of occupied call-stack slots.
    pub fn get_stack_pointer(&self) -> (r: u8)
        ensures
            r == self@.sp,
    {
        self.sp
    }

    /// Copy a program into memory starting at the program base. A ROM
    /// whose length would place bytes beyond address 4095 is rejected
    /// whole, before any byte is copied and before any cycle executes.
    pub fn load(&mut self, rom: &Vec<u8>) -> (r: Result<(), Chip8Error>)
        requires
            old(self)@.wf(),
        ensures
            rom@.len() <= ROM_CAPACITY ==> r is Ok && final(self)@ == (MachineView {
                memory: loaded_memory(old(self)@.memory, rom@),
                ..old(self)@
            }),
            rom@.len() > ROM_CAPACITY ==> r == Err::<(), Chip8Error>(
                Chip8Error::RomTooLarge { len: rom@.len() as usize },
            ) && final(self)@ == old(self)@,
            final(self)@.wf(),
    {
        if rom.len() > ROM_CAPACITY {
            return Err(Chip8Error::RomTooLarge { len: rom.len() });
        }
        let mut k: usize = 0;
        while k < rom.len()
            invariant
                k <= rom@.len(),
                rom@.len() <= ROM_CAPACITY,
                self@ == (MachineView { memory: self@.memory, ..old(self)@ }),
                self@.wf(),
                forall|a: int|
                    0 <= a < MEMORY_SIZE && !(PROGRAM_BASE <= a < PROGRAM_BASE + k)
                        ==> self@.memory[a] == old(self)@.memory[a],
                forall|a: int| PROGRAM_BASE <= a < PROGRAM_BASE + k ==> self@.memory[a] == rom@[a
                    - PROGRAM_BASE],
            decreases rom@.len() - k,
        {
            self.memory.set(PROGRAM_BASE + k, rom[k]);
            k += 1;
        }
        proof {
            assert(self@.memory =~= loaded_memory(old(self)@.memory, rom@));
            assert(self@ =~= (MachineView { memory: loaded_memory(old(self)@.memory, rom@), ..old(
                self,
            )@ }));
        }
        Ok(())
    }

    /// One countdown step: decrement each timer if it is nonzero.
    fn tick_timers(&mut self)
        ensures
            final(self)@ == tick_spec(old(self)@),
    {
        if self.delay_timer > 0 {
            self.delay_timer = self.delay_timer - 1;
        }
        if self.sound_timer > 0 {
            self.sound_timer = self.sound_timer - 1;
        }
        proof {
            assert(self@ =~= tick_spec(old(self)@));
        }
    }

    /// Execute one decoded instruction, as `exec_instr_spec` says: on
    /// success the state steps; a fatal error is returned with the state
    /// unchanged.
    #[verifier::rlimit(100)]
    #[verifier::spinoff_prover]
    fn exec_instr(&mut self, op: u16, instr: Instr, rand_byte: u8) -> (r: Result<(), Chip8Error>)
        requires
            old(self)@.wf(),
            instr_wf(instr),
            old(self)@.mode is Running,
            old(self)@.pc <= 4094,
        ensures
            final(self)@.wf(),
            match exec_instr_spec(old(self)@, op, instr, rand_byte) {
                Ok(m2) => r is Ok && final(self)@ == m2,
                Err(e) => r == Err::<(), Chip8Error>(e) && final(self)@ == old(self)@,
            },
    {
        match instr {
            Instr::ClearScreen => {
                self.gfx = zero_bytes(GFX_SIZE);
                self.draw_sema = true;
                self.pc = self.pc + 2;
                proof {
                    assert(self@ =~= exec_instr_spec(old(self)@, op, instr, rand_byte)->Ok_0);
                }
                Ok(())
            },
            Instr::Return => {
                if self.sp == 0 {
                    return Err(Chip8Error::StackUnderflow { opcode: op, pc: self.pc });
                }
                self.sp = self.sp - 1;
                self.pc = self.stack[self.sp as usize] + 2;
                proof {
                    assert(self@ =~= exec_instr_spec(old(self)@, op, instr, rand_byte)->Ok_0);
                }
                Ok(())
            },
            Instr::Jump { nnn } => {
                self.pc = nnn;
                proof {
                    assert(self@ =~= exec_instr_spec(old(self)@, op, instr, rand_byte)->Ok_0);
                }
                Ok(())
            },
            Instr::Call { nnn } => {
                if self.sp >= 16 {
                    return Err(Chip8Error::StackOverflow { opcode: op, pc: self.pc });
                }
                self.stack.set(self.sp as usize, self.pc);
                self.sp = self.sp + 1;
                self.pc = nnn;
                proof {
                    assert(self@ =~= exec_instr_spec(old(self)@, op, instr, rand_byte)->Ok_0);
                }
                Ok(())
            },
            Instr::SkipEqImm { x, nn } => {
                if self.v[x as usize] == nn {
                    self.pc = self.pc + 4;
                } else {
                    self.pc = self.pc + 2;
                }
                proof {
                    assert(self@ =~= exec_instr_spec(old(self)@, op, instr, rand_byte)->Ok_0);
                }
                Ok(())
            },
            Instr::SkipNeImm { x, nn } => {
                if self.v[x as usize] != nn {
                    self.pc = self.pc + 4;
                } else {
                    self.pc = self.pc + 2;
                }
                proof {
                    assert(self@ =~= exec_instr_spec(old(self)@, op, instr, rand_byte)->Ok_0);
                }
                Ok(())
            },
            Instr::SkipEqReg { x, y } => {
                if self.v[x as usize] == self.v[y as usize] {
                    self.pc = self.pc + 4;
                } else {
                    self.pc = self.pc + 2;
                }
                proof {
                    assert(self@ =~= exec_instr_spec(old(self)@, op, instr, rand_byte)->Ok_0);
                }
                Ok(())
            },
            Instr::SetImm { x, nn } => {
                self.v.set(x as usize, nn);
                self.pc = self.pc + 2;
                proof {
                    assert(self@ =~= exec_instr_spec(old(self)@, op, instr, rand_byte)->Ok_0);
                }
                Ok(())
            },
            Instr::AddImm { x, nn } => {
                let sum: u16 = self.v[x as usize] as u16 + nn as u16;
                self.v.set(x as usize, (sum % 256) as u8);
                self.pc = self.pc + 2;
                proof {
                    assert(self@ =~= exec_instr_spec(old(self)@, op, instr, rand_byte)->Ok_0);
                }
                Ok(())
            },
            Instr::Assign { x, y } => {
                let vy = self.v[y as usize];
                self.v.set(x as usize, vy);
                self.pc = self.pc + 2;
                proof {
                    assert(self@ =~= exec_instr_spec(old(self)@, op, instr, rand_byte)->Ok_0);
                }
                Ok(())
            },
            Instr::OrReg { x, y } => {
                let val = self.v[x as usize] | self.v[y as usize];
                self.v.set(x as usize, val);
                self.pc = self.pc + 2;
                proof {
                    assert(self@ =~= exec_instr_spec(old(self)@, op, instr, rand_byte)->Ok_0);
                }
                Ok(())
            },
            Instr::AndReg { x, y } => {
                let val = self.v[x as usize] & self.v[y as usize];
                self.v.set(x as usize, val);
                self.pc = self.pc + 2;
                proof {
                    assert(self@ =~= exec_instr_spec(old(self)@, op, instr, rand_byte)->Ok_0);
                }
                Ok(())
            },
            Instr::XorReg { x, y } => {
                let val = self.v[x as usize] ^ self.v[y as usize];
                self.v.set(x as usize, val);
                self.pc = self.pc + 2;
                proof {
                    assert(self@ =~= exec_instr_spec(old(self)@, op, instr, rand_byte)->Ok_0);
                }
                Ok(())
            },
            Instr::AddReg { x, y } => {
                let sum: u16 = self.v[x as usize] as u16 + self.v[y as usize] as u16;
                let flag: u8 = if sum > 255 {
                    1
                } else {
                    0
                };
                self.v.set(15, flag);
                self.v.set(x as usize, (sum % 256) as u8);
                self.pc = self.pc + 2;
                proof {
                    assert(self@ =~= exec_instr_spec(old(self)@, op, instr, rand_byte)->Ok_0);
                }
                Ok(())
            },
            Instr::SubReg { x, y } => {
                let vx = self.v[x as usize];
                let vy = self.v[y as usize];
                let flag: u8 = if vx >= vy {
                    1
                } else {
                    0
                };
                let res: u8 = ((vx as u16 + 256 - vy as u16) % 256) as u8;
                self.v.set(15, flag);
                self.v.set(x as usize, res);
                self.pc = self.pc + 2;
                proof {
                    assert(self@ =~= exec_instr_spec(old(self)@, op, instr, rand_byte)->Ok_0);
                }
                Ok(())
            },
            Instr::ShiftRight { x } => {
                let vx = self.v[x as usize];
                self.v.set(15, vx % 2);
                self.v.set(x as usize, vx / 2);
                self.pc = self.pc + 2;
                proof {
                    assert(self@ =~= exec_instr_spec(old(self)@, op, instr, rand_byte)->Ok_0);
                }
                Ok(())
            },
            Instr::SubFrom { x, y } => {
                let vx = self.v[x as usize];
                let vy = self.v[y as usize];
                let flag: u8 = if vy >= vx {
                    1
                } else {
                    0
                };
                let res: u8 = ((vy as u16 + 256 - vx as u16) % 256) as u8;
                self.v.set(15, flag);
                self.v.set(x as usize, res);
                self.pc = self.pc + 2;
                proof {
                    assert(self@ =~= exec_instr_spec(old(self)@, op, instr, rand_byte)->Ok_0);
                }
                Ok(())
            },
            Instr::ShiftLeft { x } => {
                let vx = self.v[x as usize];
                self.v.set(15, vx / 128);
                self.v.set(x as usize, ((vx as u16 * 2) % 256) as u8);
                self.pc = self.pc + 2;
                proof {
                    assert(self@ =~= exec_instr_spec(old(self)@, op, instr, rand_byte)->Ok_0);
                }
                Ok(())
            },
            Instr::SkipNeReg { x, y } => {
                if self.v[x as usize] != self.v[y as usize] {
                    self.pc = self.pc + 4;
                } else {
                    self.pc = self.pc + 2;
                }
                proof {
                    assert(self@ =~= exec_instr_spec(old(self)@, op, instr, rand_byte)->Ok_0);
                }
                Ok(())
            },
            Instr::SetIndex { nnn } => {
                self.i = nnn;
                self.pc = self.pc + 2;
                proof {
                    assert(self@ =~= exec_instr_spec(old(self)@, op, instr, rand_byte)->Ok_0);
                }
                Ok(())
            },
            Instr::JumpPlusV0 { nnn } => {
                self.pc = nnn + self.v[0] as u16;
                proof {
                    assert(self@ =~= exec_instr_spec(old(self)@, op, instr, rand_byte)->Ok_0);
                }
                Ok(())
            },
            Instr::RandomAnd { x, nn } => {
                let val = self.v[x as usize] & (nn & rand_byte);
                self.v.set(x as usize, val);
                self.pc = self.pc + 2;
                proof {
                    assert(self@ =~= exec_instr_spec(old(self)@, op, instr, rand_byte)->Ok_0);
                }
                Ok(())
            },
            Instr::Draw { x, y, n } => {
                if n > 0 && self.i as u32 + n as u32 > 4096 {
                    let address: u32 = if self.i >= 4096 {
                        self.i as u32
                    } else {
                        4096
                    };
                    return Err(
                        Chip8Error::MemoryOutOfBounds { address, opcode: op, pc: self.pc },
                    );
                }
                let cx = self.v[x as usize];
                let cy = self.v[y as usize];
                let col = draw_sprite_into(&mut self.gfx, &self.memory, self.i, cx, cy, n);
                self.v.set(
                    15,
                    if col {
                        1
                    } else {
                        0
                    },
                );
                self.draw_sema = true;
                self.pc = self.pc + 2;
                proof {
                    lemma_draw_sprite_step_wf(
                        old(self)@.gfx,
                        false,
                        old(self)@.memory,
                        old(self)@.i as int,
                        cx as int,
                        cy as int,
                        n as nat,
                    );
                    assert(self@ =~= exec_instr_spec(old(self)@, op, instr, rand_byte)->Ok_0);
                }
                Ok(())
            },
            Instr::SkipKeyPressed { x } => {
                let vx = self.v[x as usize];
                if vx >= 16 {
                    return Err(Chip8Error::KeyOutOfBounds { index: vx, opcode: op, pc: self.pc });
                }
                if self.key[vx as usize] != 0 {
                    self.pc = self.pc + 4;
                } else {
                    self.pc = self.pc + 2;
                }
                proof {
                    assert(self@ =~= exec_instr_spec(old(self)@, op, instr, rand_byte)->Ok_0);
                }
                Ok(())
            },
            Instr::SkipKeyNotPressed { x } => {
                let vx = self.v[x as usize];
                if vx >= 16 {
                    return Err(Chip8Error::KeyOutOfBounds { index: vx, opcode: op, pc: self.pc });
                }
                if self.key[vx as usize] == 0 {
                    self.pc = self.pc + 4;
                } else {
                    self.pc = self.pc + 2;
                }
                proof {
                    assert(self@ =~= exec_instr_spec(old(self)@, op, instr, rand_byte)->Ok_0);
                }
                Ok(())
            },
            Instr::GetDelay { x } => {
                let dt = self.delay_timer;
                self.v.set(x as usize, dt);
                self.pc = self.pc + 2;
                proof {
                    assert(self@ =~= exec_instr_spec(old(self)@, op, instr, rand_byte)->Ok_0);
                }
                Ok(())
            },
            Instr::WaitKey { x } => {
                // Execution suspends: the program counter and the timers
                // stay untouched until the key press is supplied.
                self.mode = Mode::AwaitingKey { target: x };
                proof {
                    assert(self@ =~= exec_instr_spec(old(self)@, op, instr, rand_byte)->Ok_0);
                }
                Ok(())
            },
            Instr::SetDelay { x } => {
                self.delay_timer = self.v[x as usize];
                self.pc = self.pc + 2;
                proof {
                    assert(self@ =~= exec_instr_spec(old(self)@, op, instr, rand_byte)->Ok_0);
                }
                Ok(())
            },
            Instr::SetSound { x } => {
                self.sound_timer = self.v[x as usize];
                self.pc = self.pc + 2;
                proof {
                    assert(self@ =~= exec_instr_spec(old(self)@, op, instr, rand_byte)->Ok_0);
                }
                Ok(())
            },
            Instr::AddIndex { x } => {
                let sum: u32 = self.i as u32 + self.v[x as usize] as u32;
                let flag: u8 = if sum > 65535 {
                    1
                } else {
                    0
                };
                self.i = (sum % 65536) as u16;
                self.v.set(15, flag);
                self.pc = self.pc + 2;
                proof {
                    assert(self@ =~= exec_instr_spec(old(self)@, op, instr, rand_byte)->Ok_0);
                }
                Ok(())
            },
            Instr::SetFontIndex { x } => {
                self.i = self.v[x as usize] as u16 * 5 + FONT_BASE as u16;
                self.pc = self.pc + 2;
                proof {
                    assert(self@ =~= exec_instr_spec(old(self)@, op, instr, rand_byte)->Ok_0);
                }
                Ok(())
            },
            Instr::StoreBcd { x } => {
                if self.i as u32 + 2 >= 4096 {
                    let address: u32 = if self.i >= 4096 {
                        self.i as u32
                    } else {
                        4096
                    };
                    return Err(
                        Chip8Error::MemoryOutOfBounds { address, opcode: op, pc: self.pc },
                    );
                }
                let vx = self.v[x as usize];
                let i = self.i as usize;
                self.memory.set(i, vx / 100);
                self.memory.set(i + 1, (vx / 10) % 10);
                self.memory.set(i + 2, vx % 10);
                self.pc = self.pc + 2;
                proof {
                    assert(self@ =~= exec_instr_spec(old(self)@, op, instr, rand_byte)->Ok_0);
                }
                Ok(())
            },
            Instr::DumpRegs { x } => {
                if self.i as u32 + x as u32 >= 4096 {
                    let address: u32 = if self.i >= 4096 {
                        self.i as u32
                    } else {
                        4096
                    };
                    return Err(
                        Chip8Error::MemoryOutOfBounds { address, opcode: op, pc: self.pc },
                    );
                }
                store_regs_into(&mut self.memory, &self.v, self.i as usize, x as usize);
                self.pc = self.pc + 2;
                proof {
                    assert(self@ =~= exec_instr_spec(old(self)@, op, instr, rand_byte)->Ok_0);
                }
                Ok(())
            },
            Instr::LoadRegs { x } => {
                if self.i as u32 + x as u32 >= 4096 {
                    let address: u32 = if self.i >= 4096 {
                        self.i as u32
                    } else {
                        4096
                    };
                    return Err(
                        Chip8Error::MemoryOutOfBounds { address, opcode: op, pc: self.pc },
                    );
                }
                load_regs_into(&mut self.v, &self.memory, self.i as usize, x as usize);
                self.pc = self.pc + 2;
                proof {
                    assert(self@ =~= exec_instr_spec(old(self)@, op, instr, rand_byte)->Ok_0);
                }
                Ok(())
            },
        }
    }

    /// Run one cycle with the byte for the random instruction supplied
    /// by the caller, so that the step is a function of the machine
    /// state and that byte alone: fetch, decode and execute the opcode
    /// at `pc`, then tick the timers unless the machine is or just
    /// became suspended on a key-wait. A fatal error is returned with
    /// the state unchanged.
    pub fn cycle_with_random(&mut self, rand_byte: u8) -> (r: Result<(), Chip8Error>)
        requires
            old(self)@.wf(),
        ensures
            cycle_matches(old(self)@, final(self)@, rand_byte, r),
            final(self)@.wf(),
    {
        match self.mode {
            Mode::AwaitingKey { .. } => {
                return Ok(());
            },
            Mode::Running => {},
        }
        if self.pc >= 4095 {
            return Err(Chip8Error::FetchOutOfBounds { pc: self.pc });
        }
        let pc = self.pc as usize;
        let op: u16 = (self.memory[pc] as u16) * 256 + (self.memory[pc + 1] as u16);
        proof {
            assert(op == fetch_opcode(self@));
        }
        let instr = match decode(op) {
            None => {
                return Err(Chip8Error::Decode { opcode: op, pc: self.pc });
            },
            Some(ins) => ins,
        };
        match self.exec_instr(op, instr, rand_byte) {
            Err(e) => Err(e),
            Ok(()) => {
                let running = match self.mode {
                    Mode::Running => true,
                    Mode::AwaitingKey { .. } => false,
                };
                if running {
                    self.tick_timers();
                }
                Ok(())
            },
        }
    }

    /// Emulate one cycle, drawing the byte for the random instruction
    /// from the thread's random number generator. Whatever byte comes
    /// back, the step relates the old and new state as `cycle_spec`
    /// says; for every instruction but the random one the byte is
    /// ignored, so the step is determined by the state alone.
    pub fn emulate_cycle(&mut self) -> (r: Result<(), Chip8Error>)
        requires
            old(self)@.wf(),
        ensures
            exists|b: u8| cycle_matches(old(self)@, final(self)@, b, r),
            final(self)@.wf(),
    {
        let b = random_byte();
        let r = self.cycle_with_random(b);
        proof {
            assert(cycle_matches(old(self)@, self@, b, r));
        }
        r
    }

    /// Check the state invariant at run time, for callers outside the
    /// verified world that need to test it before handing the machine
    /// to an operation that requires it.
    pub fn check_invariants(&self) -> (r: bool)
        ensures
            r == self@.wf(),
    {
        if !(self.memory.len() == MEMORY_SIZE && self.v.len() == VREGISTER_COUNT && self.gfx.len()
            == GFX_SIZE && self.stack.len() == STACK_SIZE && self.key.len() == KEY_SIZE && self.sp
            as usize <= STACK_SIZE) {
            return false;
        }
        let mut k: usize = 0;
        while k < GFX_SIZE
            invariant
                k <= GFX_SIZE,
                self@.gfx.len() == GFX_SIZE,
                forall|j: int| 0 <= j < k ==> self@.gfx[j] == 0 || self@.gfx[j] == 1,
            decreases GFX_SIZE - k,
        {
            if self.gfx[k] > 1 {
                return false;
            }
            k += 1;
        }
        let mut k: usize = 0;
        while k < STACK_SIZE
            invariant
                k <= STACK_SIZE,
                self@.stack.len() == STACK_SIZE,
                forall|j: int| 0 <= j < k ==> self@.stack[j] <= 4094,
            decreases STACK_SIZE - k,
        {
            if self.stack[k] > 4094 {
                return false;
            }
            k += 1;
        }
        match self.mode {
            Mode::Running => true,
            Mode::AwaitingKey { target } => target < 16 && self.pc <= 4094,
        }
    }
}

/// Relies on rand 0.8's `thread_rng` and `Rng::gen` to draw one byte
/// from a uniform distribution; nothing is assumed of the value drawn.
#[verifier::external_body]
fn random_byte() -> u8 {
    rand::thread_rng().gen()
}

} // verus!
