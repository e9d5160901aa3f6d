//! Laws of the interpreter, stated and proved once and for all inputs:
//! every cycle preserves the state invariants, the arithmetic family
//! computes wrapped results with the documented flag bits, the XOR draw
//! is its own inverse and reports collisions exactly, a set-index
//! program only steps the program counter, a subroutine call returns to
//! the call site, and a key-wait freezes the machine.

use vstd::prelude::*;

use crate::error::Chip8Error;
use crate::instr::{decode_spec, instr_wf, op_family, op_nnn, Instr};
use crate::semantics::{
    cycle_spec, draw_sprite_step, exec_instr_spec, fetch_opcode, lemma_draw_sprite_collision,
    lemma_draw_sprite_pointwise, lemma_draw_sprite_step_wf, sprite_bit,
};
use crate::state::{MachineView, Mode};

verus! {

/// Law: every instruction preserves the structural invariants of the
/// machine state -- fixed component sizes, single-bit framebuffer
/// cells, return addresses that leave room for the return target, a
/// stack pointer within capacity, and a well-recorded key-wait.
#[verifier::rlimit(60)]
pub proof fn lemma_exec_preserves_wf(m: MachineView, op: u16, instr: Instr, b: u8)
    requires
        m.wf(),
        instr_wf(instr),
        m.mode is Running,
        m.pc <= 4094,
    ensures
        exec_instr_spec(m, op, instr, b) matches Ok(m2) ==> m2.wf(),
{
    match instr {
        Instr::Draw { x, y, n } => {
            if !(n > 0 && m.i + n > 4096) {
                lemma_draw_sprite_step_wf(
                    m.gfx,
                    false,
                    m.memory,
                    m.i as int,
                    m.v[x as int] as int,
                    m.v[y as int] as int,
                    n as nat,
                );
            }
        },
        _ => {},
    }
}

/// Law: a whole cycle preserves the structural invariants of the
/// machine state.
pub proof fn lemma_cycle_preserves_wf(m: MachineView, b: u8)
    requires
        m.wf(),
    ensures
        cycle_spec(m, b) matches Ok(m2) ==> m2.wf(),
{
    if m.mode is Running && m.pc + 1 < 4096 {
        let op = fetch_opcode(m);
        match decode_spec(op) {
            None => {},
            Some(instr) => {
                lemma_exec_preserves_wf(m, op, instr, b);
            },
        }
    }
}

/// Law: adding an immediate to a register leaves the mathematically
/// wrapped (mod 256) sum, and does not touch the flag register (unless
/// it is itself the destination).
pub proof fn lemma_add_imm_wraps(m: MachineView, op: u16, x: u8, nn: u8, b: u8)
    requires
        m.wf(),
        x < 16,
    ensures
        exec_instr_spec(m, op, Instr::AddImm { x, nn }, b) matches Ok(m2) && m2.v[x as int] == (
        m.v[x as int] + nn) % 256 && (x != 15 ==> m2.v[15] == m.v[15]),
{
}

/// Law: register addition leaves the mathematically wrapped (mod 256)
/// sum in the destination, and the carry bit in `VF` (unless the
/// destination is `VF` itself, which the result then overwrites).
pub proof fn lemma_add_reg_wraps(m: MachineView, op: u16, x: u8, y: u8, b: u8)
    requires
        m.wf(),
        x < 16,
        y < 16,
    ensures
        exec_instr_spec(m, op, Instr::AddReg { x, y }, b) matches Ok(m2) && m2.v[x as int] == (
        m.v[x as int] + m.v[y as int]) % 256 && (x != 15 ==> m2.v[15] == (if m.v[x as int]
            + m.v[y as int] > 255 {
            1u8
        } else {
            0u8
        })),
{
}

/// Law: register subtraction leaves the mathematically wrapped (mod
/// 256) difference in the destination, and the no-borrow bit in `VF`
/// (unless the destination is `VF` itself, which the result then
/// overwrites).
pub proof fn lemma_sub_reg_wraps(m: MachineView, op: u16, x: u8, y: u8, b: u8)
    requires
        m.wf(),
        x < 16,
        y < 16,
    ensures
        exec_instr_spec(m, op, Instr::SubReg { x, y }, b) matches Ok(m2) && m2.v[x as int] == (
        m.v[x as int] - m.v[y as int] + 256) % 256 && (x != 15 ==> m2.v[15] == (if m.v[x as int]
            >= m.v[y as int] {
            1u8
        } else {
            0u8
        })),
{
}

/// Law: reversed subtraction leaves the mathematically wrapped (mod
/// 256) difference in the destination, and the no-borrow bit in `VF`
/// (unless the destination is `VF` itself, which the result then
/// overwrites).
pub proof fn lemma_sub_from_wraps(m: MachineView, op: u16, x: u8, y: u8, b: u8)
    requires
        m.wf(),
        x < 16,
        y < 16,
    ensures
        exec_instr_spec(m, op, Instr::SubFrom { x, y }, b) matches Ok(m2) && m2.v[x as int] == (
        m.v[y as int] - m.v[x as int] + 256) % 256 && (x != 15 ==> m2.v[15] == (if m.v[y as int]
            >= m.v[x as int] {
            1u8
        } else {
            0u8
        })),
{
}

/// Law: the right shift halves the register, and `VF` receives the bit
/// shifted out -- the least significant bit of the pre-shift value
/// (unless the destination is `VF` itself, which the result then
/// overwrites).
pub proof fn lemma_shift_right(m: MachineView, op: u16, x: u8, b: u8)
    requires
        m.wf(),
        x < 16,
    ensures
        exec_instr_spec(m, op, Instr::ShiftRight { x }, b) matches Ok(m2) && m2.v[x as int]
            == m.v[x as int] / 2 && (x != 15 ==> m2.v[15] == m.v[x as int] % 2),
{
}

/// Law: the left shift doubles the register modulo 256, and `VF`
/// receives the bit shifted out -- the most significant bit of the
/// pre-shift value (unless the destination is `VF` itself, which the
/// result then overwrites).
pub proof fn lemma_shift_left(m: MachineView, op: u16, x: u8, b: u8)
    requires
        m.wf(),
        x < 16,
    ensures
        exec_instr_spec(m, op, Instr::ShiftLeft { x }, b) matches Ok(m2) && m2.v[x as int] == (
        m.v[x as int] * 2) % 256 && (x != 15 ==> m2.v[15] == m.v[x as int] / 128),
{
}

/// Law: drawing the same sprite twice at the same position restores
/// the framebuffer exactly -- the XOR draw is its own inverse, so a
/// repeated draw round-trips to the picture it started from.
pub proof fn lemma_draw_twice_restores(
    gfx: Seq<u8>,
    mem: Seq<u8>,
    i: int,
    cx: int,
    cy: int,
    rows: nat,
)
    requires
        gfx.len() == 2048,
        forall|k: int| 0 <= k < 2048 ==> gfx[k] == 0 || gfx[k] == 1,
        0 <= cx,
        0 <= cy,
    ensures
        draw_sprite_step(
            draw_sprite_step(gfx, false, mem, i, cx, cy, rows).0,
            false,
            mem,
            i,
            cx,
            cy,
            rows,
        ).0 == gfx,
{
    let g1 = draw_sprite_step(gfx, false, mem, i, cx, cy, rows).0;
    lemma_draw_sprite_pointwise(gfx, false, mem, i, cx, cy, rows);
    lemma_draw_sprite_pointwise(g1, false, mem, i, cx, cy, rows);
    assert(draw_sprite_step(g1, false, mem, i, cx, cy, rows).0 =~= gfx);
}

/// Law: the draw instruction reports a collision in `VF` exactly when
/// some pixel it draws lands on a framebuffer cell that was already
/// set -- `VF` is 1 if any cell flips from set to unset, else 0.
pub proof fn lemma_draw_collision_flag(m: MachineView, op: u16, x: u8, y: u8, n: u8, b: u8)
    requires
        m.wf(),
        x < 16,
        y < 16,
        n < 16,
        !(n > 0 && m.i + n > 4096),
    ensures
        exec_instr_spec(m, op, Instr::Draw { x, y, n }, b) matches Ok(m2) && (m2.v[15] == 1
            <==> exists|k: int|
            #![trigger m.gfx[k]]
            0 <= k < 2048 && m.v[y as int] <= k / 64 < m.v[y as int] + n && m.v[x as int] <= k % 64
                < m.v[x as int] + 8 && sprite_bit(
                m.memory[m.i + (k / 64 - m.v[y as int])],
                ((k % 64 - m.v[x as int]) as u8),
            ) && m.gfx[k] == 1),
{
    lemma_draw_sprite_collision(
        m.gfx,
        false,
        m.memory,
        m.i as int,
        m.v[x as int] as int,
        m.v[y as int] as int,
        n as nat,
    );
}

/// Law: a cycle whose fetched opcode is a set-index instruction
/// advances the program counter by exactly 2 and leaves the
/// framebuffer, the draw-dirty flag and memory untouched -- so a
/// program made only of set-index instructions steps through memory
/// without ever drawing.
pub proof fn lemma_set_index_cycle(m: MachineView, b: u8)
    requires
        m.wf(),
        m.mode is Running,
        m.pc + 1 < 4096,
        op_family(fetch_opcode(m)) == 0xA,
    ensures
        cycle_spec(m, b) matches Ok(m2) && m2.pc == m.pc + 2 && m2.gfx == m.gfx && m2.draw_flag
            == m.draw_flag && m2.memory == m.memory && m2.mode is Running,
{
}

/// Law: a subroutine call followed by a return resumes right after the
/// call. The call pushes the call-site program counter; the return pops
/// it and adds the two-byte skip itself, so after both cycles the
/// program counter sits at the call site plus 2, the stack pointer is
/// back where it was, and the slots below it are untouched.
pub proof fn lemma_call_then_return(m: MachineView, b1: u8, b2: u8)
    requires
        m.wf(),
        m.mode is Running,
        m.pc + 1 < 4096,
        op_family(fetch_opcode(m)) == 0x2,
        m.sp < 16,
        op_nnn(fetch_opcode(m)) <= 4094,
        fetch_opcode((MachineView {
            pc: op_nnn(fetch_opcode(m)),
            ..m
        })) == 0x00EE,
    ensures
        cycle_spec(m, b1) matches Ok(m1) && cycle_spec(m1, b2) matches Ok(m2) && m2.pc == m.pc + 2
            && m2.sp == m.sp && (forall|k: int| 0 <= k < m.sp ==> m2.stack[k] == m.stack[k]),
{
    let m1 = cycle_spec(m, b1)->Ok_0;
    assert(m1.pc == op_nnn(fetch_opcode(m)));
    assert(fetch_opcode(m1) == 0x00EE);
}

/// Law: while the machine awaits a key press, a cycle changes nothing
/// at all -- no fetch, no program-counter step, no timer tick.
pub proof fn lemma_awaiting_key_cycle_stutters(m: MachineView, b: u8)
    requires
        m.mode is AwaitingKey,
    ensures
        cycle_spec(m, b) == Ok::<MachineView, Chip8Error>(m),
{
}

/// Law: a cycle that executes the blocking key-read suspends the
/// machine, leaving the program counter and both timers exactly as
/// they were.
pub proof fn lemma_wait_key_cycle(m: MachineView, x: u8, b: u8)
    requires
        m.wf(),
        m.mode is Running,
        m.pc + 1 < 4096,
        decode_spec(fetch_opcode(m)) == Some(Instr::WaitKey { x }),
    ensures
        cycle_spec(m, b) matches Ok(m2) && m2 == (MachineView {
            mode: Mode::AwaitingKey { target: x },
            ..m
        }) && m2.pc == m.pc && m2.delay_timer == m.delay_timer && m2.sound_timer == m.sound_timer,
{
}

} // verus!
