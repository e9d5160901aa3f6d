//! The specification of the fetch-decode-execute engine.
//!
//! `cycle_spec` maps a machine state (and the byte drawn for the random
//! instruction) to the state after one cycle, or to the fatal error the
//! cycle raises. Every contract on the executable engine is stated
//! against it.

use vstd::prelude::*;

use crate::error::Chip8Error;
use crate::instr::{decode_spec, Instr};
use crate::state::{MachineView, Mode};

verus! {

/// The opcode fetched at `m.pc`: two consecutive bytes combined
/// big-endian.
pub open spec fn fetch_opcode(m: MachineView) -> u16 {
    ((m.memory[m.pc as int] * 256 + m.memory[m.pc as int + 1]) as u16)
}

/// One countdown step: each timer is decremented if nonzero, so neither
/// ever goes negative.
pub open spec fn tick_spec(m: MachineView) -> MachineView {
    MachineView {
        delay_timer: if m.delay_timer > 0 {
            ((m.delay_timer - 1) as u8)
        } else {
            0u8
        },
        sound_timer: if m.sound_timer > 0 {
            ((m.sound_timer - 1) as u8)
        } else {
            0u8
        },
        ..m
    }
}

/// The first address at or beyond 4096 touched by an access run that
/// starts at `base` and overruns memory.
pub open spec fn oob_address(base: u16) -> u32 {
    if base >= 4096 {
        base as u32
    } else {
        4096u32
    }
}

/// Whether bit `d` of a sprite row is set, counting bit 0 as the
/// leftmost (most significant) pixel.
pub open spec fn sprite_bit(row_byte: u8, d: u8) -> bool {
    row_byte & (0x80u8 >> d) != 0
}

/// A pixel after a sprite bit is XORed onto it.
pub open spec fn flip(p: u8) -> u8 {
    if p == 1 {
        0u8
    } else {
        1u8
    }
}

/// Framebuffer and collision flag after the first `dx` pixels of one
/// sprite row are XORed on. The row byte sits at column `cx` of absolute
/// row `ry`; pixels that fall at or beyond column 64 are clipped, not
/// wrapped. The collision flag becomes true as soon as a drawn pixel
/// finds its cell already set.
pub open spec fn draw_row_step(
    gfx: Seq<u8>,
    vf: bool,
    row_byte: u8,
    cx: int,
    ry: int,
    dx: nat,
) -> (Seq<u8>, bool)
    decreases dx,
{
    if dx == 0 {
        (gfx, vf)
    } else {
        let prev = draw_row_step(gfx, vf, row_byte, cx, ry, (dx - 1) as nat);
        let d = dx - 1;
        if cx + d < 64 && sprite_bit(row_byte, (d as u8)) {
            let idx = ry * 64 + cx + d;
            (prev.0.update(idx, flip(prev.0[idx])), prev.1 || prev.0[idx] == 1)
        } else {
            prev
        }
    }
}

/// Framebuffer and collision flag after the first `rows` rows of a
/// sprite are drawn. Row `r` is read from `mem[i + r]` and lands on
/// absolute row `cy + r`; rows that fall at or beyond row 32 are
/// clipped, not wrapped.
pub open spec fn draw_sprite_step(
    gfx: Seq<u8>,
    vf: bool,
    mem: Seq<u8>,
    i: int,
    cx: int,
    cy: int,
    rows: nat,
) -> (Seq<u8>, bool)
    decreases rows,
{
    if rows == 0 {
        (gfx, vf)
    } else {
        let prev = draw_sprite_step(gfx, vf, mem, i, cx, cy, (rows - 1) as nat);
        let r = rows - 1;
        if cy + r < 32 {
            draw_row_step(prev.0, prev.1, mem[i + r], cx, cy + r, 8)
        } else {
            prev
        }
    }
}

/// Drawing one row keeps the framebuffer 2048 cells of single bits.
pub proof fn lemma_draw_row_step_wf(
    gfx: Seq<u8>,
    vf: bool,
    row_byte: u8,
    cx: int,
    ry: int,
    dx: nat,
)
    requires
        gfx.len() == 2048,
        forall|k: int| 0 <= k < 2048 ==> gfx[k] == 0 || gfx[k] == 1,
        0 <= cx,
        0 <= ry < 32,
    ensures
        draw_row_step(gfx, vf, row_byte, cx, ry, dx).0.len() == 2048,
        forall|k: int|
            0 <= k < 2048 ==> draw_row_step(gfx, vf, row_byte, cx, ry, dx).0[k] == 0
                || draw_row_step(gfx, vf, row_byte, cx, ry, dx).0[k] == 1,
    decreases dx,
{
    if dx > 0 {
        lemma_draw_row_step_wf(gfx, vf, row_byte, cx, ry, (dx - 1) as nat);
    }
}

/// Drawing a sprite keeps the framebuffer 2048 cells of single bits.
pub proof fn lemma_draw_sprite_step_wf(
    gfx: Seq<u8>,
    vf: bool,
    mem: Seq<u8>,
    i: int,
    cx: int,
    cy: int,
    rows: nat,
)
    requires
        gfx.len() == 2048,
        forall|k: int| 0 <= k < 2048 ==> gfx[k] == 0 || gfx[k] == 1,
        0 <= cx,
        0 <= cy,
    ensures
        draw_sprite_step(gfx, vf, mem, i, cx, cy, rows).0.len() == 2048,
        forall|k: int|
            0 <= k < 2048 ==> draw_sprite_step(gfx, vf, mem, i, cx, cy, rows).0[k] == 0
                || draw_sprite_step(gfx, vf, mem, i, cx, cy, rows).0[k] == 1,
    decreases rows,
{
    if rows > 0 {
        lemma_draw_sprite_step_wf(gfx, vf, mem, i, cx, cy, (rows - 1) as nat);
        let prev = draw_sprite_step(gfx, vf, mem, i, cx, cy, (rows - 1) as nat);
        let r = rows - 1;
        if cy + r < 32 {
            lemma_draw_row_step_wf(prev.0, prev.1, mem[i + r], cx, cy + r, 8);
        }
    }
}

/// Which cell each drawn pixel of one row lands in: row `ry`, one
/// column per sprite bit. The characterization is pointwise: a cell is
/// flipped exactly when it lies in the row's window and the matching
/// sprite bit is set.
pub proof fn lemma_draw_row_pointwise(
    gfx: Seq<u8>,
    vf: bool,
    row_byte: u8,
    cx: int,
    ry: int,
    dx: nat,
)
    requires
        gfx.len() == 2048,
        0 <= cx,
        0 <= ry < 32,
        dx <= 8,
    ensures
        draw_row_step(gfx, vf, row_byte, cx, ry, dx).0.len() == 2048,
        forall|k: int|
            0 <= k < 2048 ==> draw_row_step(gfx, vf, row_byte, cx, ry, dx).0[k] == (if k / 64 == ry
                && cx <= k % 64 < cx + dx && sprite_bit(row_byte, ((k % 64 - cx) as u8)) {
                flip(gfx[k])
            } else {
                gfx[k]
            }),
    decreases dx,
{
    if dx > 0 {
        lemma_draw_row_pointwise(gfx, vf, row_byte, cx, ry, (dx - 1) as nat);
        let prev = draw_row_step(gfx, vf, row_byte, cx, ry, (dx - 1) as nat);
        let d = dx - 1;
        if cx + d < 64 && sprite_bit(row_byte, (d as u8)) {
            let idx = ry * 64 + cx + d;
            assert(idx / 64 == ry && idx % 64 == cx + d) by (nonlinear_arith)
                requires
                    0 <= cx + d < 64,
                    0 <= ry < 32,
                    idx == ry * 64 + cx + d,
            ;
            assert forall|k: int| #![trigger k / 64, k % 64]
                0 <= k < 2048 && k != idx implies !(k / 64 == ry && k % 64 == cx + d) by {
                assert(k == 64 * (k / 64) + k % 64) by (nonlinear_arith);
            }
        }
    }
}

/// Which cell each drawn pixel of a whole sprite lands in. The
/// characterization is pointwise: a cell is flipped exactly when it
/// lies in the sprite's window and the matching sprite bit is set, and
/// the sprite bits are read from the pre-draw memory alone, so the
/// flipped set does not depend on the framebuffer.
pub proof fn lemma_draw_sprite_pointwise(
    gfx: Seq<u8>,
    vf: bool,
    mem: Seq<u8>,
    i: int,
    cx: int,
    cy: int,
    rows: nat,
)
    requires
        gfx.len() == 2048,
        0 <= cx,
        0 <= cy,
    ensures
        draw_sprite_step(gfx, vf, mem, i, cx, cy, rows).0.len() == 2048,
        forall|k: int|
            0 <= k < 2048 ==> draw_sprite_step(gfx, vf, mem, i, cx, cy, rows).0[k] == (if cy <= k
                / 64 < cy + rows && cx <= k % 64 < cx + 8 && sprite_bit(
                mem[i + (k / 64 - cy)],
                ((k % 64 - cx) as u8),
            ) {
                flip(gfx[k])
            } else {
                gfx[k]
            }),
    decreases rows,
{
    if rows > 0 {
        lemma_draw_sprite_pointwise(gfx, vf, mem, i, cx, cy, (rows - 1) as nat);
        let prev = draw_sprite_step(gfx, vf, mem, i, cx, cy, (rows - 1) as nat);
        let r = rows - 1;
        if cy + r < 32 {
            lemma_draw_row_pointwise(prev.0, prev.1, mem[i + r], cx, cy + r, 8);
        }
    }
}

/// Which collisions one row reports: the flag comes on exactly when
/// some drawn pixel of the row finds its cell already set -- set in
/// the framebuffer as it was before the row was drawn.
pub proof fn lemma_draw_row_collision(
    gfx: Seq<u8>,
    vf: bool,
    row_byte: u8,
    cx: int,
    ry: int,
    dx: nat,
)
    requires
        gfx.len() == 2048,
        0 <= cx,
        0 <= ry < 32,
        dx <= 8,
    ensures
        draw_row_step(gfx, vf, row_byte, cx, ry, dx).1 == (vf || exists|k: int|
            #![trigger gfx[k]]
            0 <= k < 2048 && k / 64 == ry && cx <= k % 64 < cx + dx && sprite_bit(
                row_byte,
                ((k % 64 - cx) as u8),
            ) && gfx[k] == 1),
    decreases dx,
{
    if dx > 0 {
        lemma_draw_row_collision(gfx, vf, row_byte, cx, ry, (dx - 1) as nat);
        lemma_draw_row_pointwise(gfx, vf, row_byte, cx, ry, (dx - 1) as nat);
        let prev = draw_row_step(gfx, vf, row_byte, cx, ry, (dx - 1) as nat);
        let d = dx - 1;
        assert forall|k: int| #![trigger k / 64, k % 64]
            0 <= k < 2048 && k / 64 == ry && k % 64 == cx + d implies k == ry * 64 + cx + d by {
            assert(k == 64 * (k / 64) + k % 64) by (nonlinear_arith);
        }
        if cx + d < 64 && sprite_bit(row_byte, (d as u8)) {
            let idx = ry * 64 + cx + d;
            assert(idx / 64 == ry && idx % 64 == cx + d) by (nonlinear_arith)
                requires
                    0 <= cx + d < 64,
                    0 <= ry < 32,
                    idx == ry * 64 + cx + d,
            ;
            assert(prev.0[idx] == gfx[idx]);
            if prev.0[idx] == 1 {
                assert(0 <= idx < 2048 && idx / 64 == ry && cx <= idx % 64 < cx + dx && sprite_bit(
                    row_byte,
                    ((idx % 64 - cx) as u8),
                ) && gfx[idx] == 1);
            }
        }
    }
}

/// Which collisions a whole sprite reports: the flag comes on exactly
/// when some drawn pixel finds its cell already set in the framebuffer
/// as it was before the draw began -- each cell is touched at most
/// once, so the check against the evolving framebuffer and the check
/// against the original one agree.
pub proof fn lemma_draw_sprite_collision(
    gfx: Seq<u8>,
    vf: bool,
    mem: Seq<u8>,
    i: int,
    cx: int,
    cy: int,
    rows: nat,
)
    requires
        gfx.len() == 2048,
        0 <= cx,
        0 <= cy,
    ensures
        draw_sprite_step(gfx, vf, mem, i, cx, cy, rows).1 == (vf || exists|k: int|
            #![trigger gfx[k]]
            0 <= k < 2048 && cy <= k / 64 < cy + rows && cx <= k % 64 < cx + 8 && sprite_bit(
                mem[i + (k / 64 - cy)],
                ((k % 64 - cx) as u8),
            ) && gfx[k] == 1),
    decreases rows,
{
    if rows > 0 {
        lemma_draw_sprite_collision(gfx, vf, mem, i, cx, cy, (rows - 1) as nat);
        lemma_draw_sprite_pointwise(gfx, vf, mem, i, cx, cy, (rows - 1) as nat);
        let prev = draw_sprite_step(gfx, vf, mem, i, cx, cy, (rows - 1) as nat);
        let r = rows - 1;
        if cy + r < 32 {
            lemma_draw_row_collision(prev.0, prev.1, mem[i + r], cx, cy + r, 8);
            assert forall|k: int| #![trigger gfx[k]] #![trigger prev.0[k]]
                0 <= k < 2048 implies ((k / 64 == cy + r && cx <= k % 64 < cx + 8 && sprite_bit(
                mem[i + r],
                ((k % 64 - cx) as u8),
            ) && prev.0[k] == 1) <==> (k / 64 == cy + r && cx <= k % 64 < cx + 8 && sprite_bit(
                mem[i + (k / 64 - cy)],
                ((k % 64 - cx) as u8),
            ) && gfx[k] == 1)) by {
                if k / 64 == cy + r {
                    assert(prev.0[k] == gfx[k]);
                }
            }
        }
    }
}

/// Memory after registers `V0..=VX` are stored at addresses
/// `i`, `i+1`, ..., `i+x`; every other byte is unchanged.
pub open spec fn store_regs_mem(mem: Seq<u8>, v: Seq<u8>, i: int, x: int) -> Seq<u8> {
    Seq::new(
        4096,
        |a: int|
            if i <= a <= i + x {
                v[a - i]
            } else {
                mem[a]
            },
    )
}

/// Registers after `V0..=VX` are filled from addresses `i`..`i+x`;
/// registers beyond `VX` are unchanged.
pub open spec fn load_regs_v(v: Seq<u8>, mem: Seq<u8>, i: int, x: int) -> Seq<u8> {
    Seq::new(
        16,
        |j: int|
            if j <= x {
                mem[i + j]
            } else {
                v[j]
            },
    )
}

/// The effect of one decoded instruction on the machine state, or the
/// fatal error it raises, in which case the state is unchanged. `op` is
/// the raw opcode, carried into error reports; `rand_byte` is the byte
/// drawn for the random instruction and ignored by every other one.
///
/// Flag conventions, applied uniformly: the carry/borrow/shift flag is
/// computed from the pre-instruction register values and written to `VF`
/// before the result is written to the destination, so when the
/// destination is `VF` itself the result overwrites the flag.
pub open spec fn exec_instr_spec(
    m: MachineView,
    op: u16,
    instr: Instr,
    rand_byte: u8,
) -> Result<MachineView, Chip8Error> {
    let pc2 = ((m.pc + 2) as u16);
    let pc4 = ((m.pc + 4) as u16);
    match instr {
        Instr::ClearScreen => Ok(
            (MachineView {
                gfx: Seq::new(2048, |k: int| 0u8),
                draw_flag: true,
                pc: pc2,
                ..m
            }),
        ),
        Instr::Return => {
            if m.sp == 0 {
                Err(Chip8Error::StackUnderflow { opcode: op, pc: m.pc })
            } else {
                // The stored return address is the call-site program
                // counter, so the return adds the +2 skip itself.
                Ok(
                    (MachineView {
                        sp: ((m.sp - 1) as u8),
                        pc: ((m.stack[m.sp - 1] + 2) as u16),
                        ..m
                    }),
                )
            }
        },
        Instr::Jump { nnn } => Ok((MachineView { pc: nnn, ..m })),
        Instr::Call { nnn } => {
            if m.sp >= 16 {
                Err(Chip8Error::StackOverflow { opcode: op, pc: m.pc })
            } else {
                Ok(
                    (MachineView {
                        stack: m.stack.update(m.sp as int, m.pc),
                        sp: ((m.sp + 1) as u8),
                        pc: nnn,
                        ..m
                    }),
                )
            }
        },
        Instr::SkipEqImm { x, nn } => Ok(
            (MachineView {
                pc: if m.v[x as int] == nn {
                    pc4
                } else {
                    pc2
                },
                ..m
            }),
        ),
        Instr::SkipNeImm { x, nn } => Ok(
            (MachineView {
                pc: if m.v[x as int] != nn {
                    pc4
                } else {
                    pc2
                },
                ..m
            }),
        ),
        Instr::SkipEqReg { x, y } => Ok(
            (MachineView {
                pc: if m.v[x as int] == m.v[y as int] {
                    pc4
                } else {
                    pc2
                },
                ..m
            }),
        ),
        Instr::SetImm { x, nn } => Ok((MachineView { v: m.v.update(x as int, nn), pc: pc2, ..m })),
        Instr::AddImm { x, nn } => Ok(
            (MachineView {
                v: m.v.update(x as int, (((m.v[x as int] + nn) % 256) as u8)),
                pc: pc2,
                ..m
            }),
        ),
        Instr::Assign { x, y } => Ok(
            (MachineView { v: m.v.update(x as int, m.v[y as int]), pc: pc2, ..m }),
        ),
        Instr::OrReg { x, y } => Ok(
            (MachineView { v: m.v.update(x as int, m.v[x as int] | m.v[y as int]), pc: pc2, ..m }),
        ),
        Instr::AndReg { x, y } => Ok(
            (MachineView { v: m.v.update(x as int, m.v[x as int] & m.v[y as int]), pc: pc2, ..m }),
        ),
        Instr::XorReg { x, y } => Ok(
            (MachineView { v: m.v.update(x as int, m.v[x as int] ^ m.v[y as int]), pc: pc2, ..m }),
        ),
        Instr::AddReg { x, y } => {
            let flag: u8 = if m.v[x as int] + m.v[y as int] > 255 {
                1u8
            } else {
                0u8
            };
            let res = (((m.v[x as int] + m.v[y as int]) % 256) as u8);
            Ok((MachineView { v: m.v.update(15, flag).update(x as int, res), pc: pc2, ..m }))
        },
        Instr::SubReg { x, y } => {
            let flag: u8 = if m.v[x as int] >= m.v[y as int] {
                1u8
            } else {
                0u8
            };
            let res = (((m.v[x as int] - m.v[y as int] + 256) % 256) as u8);
            Ok((MachineView { v: m.v.update(15, flag).update(x as int, res), pc: pc2, ..m }))
        },
        Instr::ShiftRight { x } => {
            // The flag takes the least significant bit of the pre-shift
            // value.
            let flag = ((m.v[x as int] % 2) as u8);
            let res = ((m.v[x as int] / 2) as u8);
            Ok((MachineView { v: m.v.update(15, flag).update(x as int, res), pc: pc2, ..m }))
        },
        Instr::SubFrom { x, y } => {
            let flag: u8 = if m.v[y as int] >= m.v[x as int] {
                1u8
            } else {
                0u8
            };
            let res = (((m.v[y as int] - m.v[x as int] + 256) % 256) as u8);
            Ok((MachineView { v: m.v.update(15, flag).update(x as int, res), pc: pc2, ..m }))
        },
        Instr::ShiftLeft { x } => {
            // The flag takes the most significant bit of the pre-shift
            // value.
            let flag = ((m.v[x as int] / 128) as u8);
            let res = (((m.v[x as int] * 2) % 256) as u8);
            Ok((MachineView { v: m.v.update(15, flag).update(x as int, res), pc: pc2, ..m }))
        },
        Instr::SkipNeReg { x, y } => Ok(
            (MachineView {
                pc: if m.v[x as int] != m.v[y as int] {
                    pc4
                } else {
                    pc2
                },
                ..m
            }),
        ),
        Instr::SetIndex { nnn } => Ok((MachineView { i: nnn, pc: pc2, ..m })),
        Instr::JumpPlusV0 { nnn } => Ok((MachineView { pc: ((nnn + m.v[0]) as u16), ..m })),
        Instr::RandomAnd { x, nn } => Ok(
            (MachineView {
                v: m.v.update(x as int, m.v[x as int] & (nn & rand_byte)),
                pc: pc2,
                ..m
            }),
        ),
        Instr::Draw { x, y, n } => {
            if n > 0 && m.i + n > 4096 {
                Err(
                    Chip8Error::MemoryOutOfBounds {
                        address: oob_address(m.i),
                        opcode: op,
                        pc: m.pc,
                    },
                )
            } else {
                let drawn = draw_sprite_step(
                    m.gfx,
                    false,
                    m.memory,
                    m.i as int,
                    m.v[x as int] as int,
                    m.v[y as int] as int,
                    n as nat,
                );
                Ok(
                    (MachineView {
                        gfx: drawn.0,
                        v: m.v.update(
                            15,
                            if drawn.1 {
                                1u8
                            } else {
                                0u8
                            },
                        ),
                        draw_flag: true,
                        pc: pc2,
                        ..m
                    }),
                )
            }
        },
        Instr::SkipKeyPressed { x } => {
            if m.v[x as int] >= 16 {
                Err(Chip8Error::KeyOutOfBounds { index: m.v[x as int], opcode: op, pc: m.pc })
            } else {
                Ok(
                    (MachineView {
                        pc: if m.key[m.v[x as int] as int] != 0 {
                            pc4
                        } else {
                            pc2
                        },
                        ..m
                    }),
                )
            }
        },
        Instr::SkipKeyNotPressed { x } => {
            if m.v[x as int] >= 16 {
                Err(Chip8Error::KeyOutOfBounds { index: m.v[x as int], opcode: op, pc: m.pc })
            } else {
                Ok(
                    (MachineView {
                        pc: if m.key[m.v[x as int] as int] == 0 {
                            pc4
                        } else {
                            pc2
                        },
                        ..m
                    }),
                )
            }
        },
        Instr::GetDelay { x } => Ok(
            (MachineView { v: m.v.update(x as int, m.delay_timer), pc: pc2, ..m }),
        ),
        Instr::WaitKey { x } => Ok(
            // The program counter and the timers stay untouched until
            // the key press is supplied.
            (MachineView { mode: Mode::AwaitingKey { target: x }, ..m }),
        ),
        Instr::SetDelay { x } => Ok(
            (MachineView { delay_timer: m.v[x as int], pc: pc2, ..m }),
        ),
        Instr::SetSound { x } => Ok(
            (MachineView { sound_timer: m.v[x as int], pc: pc2, ..m }),
        ),
        Instr::AddIndex { x } => {
            // The flag documents the one-step range check on the 16-bit
            // index register.
            let flag: u8 = if m.i + m.v[x as int] > 65535 {
                1u8
            } else {
                0u8
            };
            Ok(
                (MachineView {
                    i: (((m.i + m.v[x as int]) % 65536) as u16),
                    v: m.v.update(15, flag),
                    pc: pc2,
                    ..m
                }),
            )
        },
        Instr::SetFontIndex { x } => Ok(
            (MachineView { i: ((m.v[x as int] * 5 + 80) as u16), pc: pc2, ..m }),
        ),
        Instr::StoreBcd { x } => {
            if m.i + 2 >= 4096 {
                Err(
                    Chip8Error::MemoryOutOfBounds {
                        address: oob_address(m.i),
                        opcode: op,
                        pc: m.pc,
                    },
                )
            } else {
                let hundreds = ((m.v[x as int] / 100) as u8);
                let tens = (((m.v[x as int] / 10) % 10) as u8);
                let ones = ((m.v[x as int] % 10) as u8);
                Ok(
                    (MachineView {
                        memory: m.memory.update(m.i as int, hundreds).update(
                            m.i as int + 1,
                            tens,
                        ).update(m.i as int + 2, ones),
                        pc: pc2,
                        ..m
                    }),
                )
            }
        },
        Instr::DumpRegs { x } => {
            if m.i + x >= 4096 {
                Err(
                    Chip8Error::MemoryOutOfBounds {
                        address: oob_address(m.i),
                        opcode: op,
                        pc: m.pc,
                    },
                )
            } else {
                // `I` itself is never mutated by a register dump.
                Ok(
                    (MachineView {
                        memory: store_regs_mem(m.memory, m.v, m.i as int, x as int),
                        pc: pc2,
                        ..m
                    }),
                )
            }
        },
        Instr::LoadRegs { x } => {
            if m.i + x >= 4096 {
                Err(
                    Chip8Error::MemoryOutOfBounds {
                        address: oob_address(m.i),
                        opcode: op,
                        pc: m.pc,
                    },
                )
            } else {
                // `I` itself is never mutated by a register load.
                Ok(
                    (MachineView {
                        v: load_regs_v(m.v, m.memory, m.i as int, x as int),
                        pc: pc2,
                        ..m
                    }),
                )
            }
        },
    }
}

/// One full cycle. A machine suspended on a key-wait does nothing: the
/// program counter and the timers stay as they are until the external
/// loop supplies a key press. A running machine fetches the two-byte
/// opcode at `pc`, decodes it, executes it, and then ticks the timers --
/// unless the instruction just suspended the machine. A fatal error
/// leaves the state unchanged.
pub open spec fn cycle_spec(m: MachineView, rand_byte: u8) -> Result<MachineView, Chip8Error> {
    if !(m.mode is Running) {
        Ok(m)
    } else if m.pc + 1 >= 4096 {
        Err(Chip8Error::FetchOutOfBounds { pc: m.pc })
    } else {
        let op = fetch_opcode(m);
        match decode_spec(op) {
            None => Err(Chip8Error::Decode { opcode: op, pc: m.pc }),
            Some(instr) => match exec_instr_spec(m, op, instr, rand_byte) {
                Err(e) => Err(e),
                Ok(m2) => if m2.mode is Running {
                    Ok(tick_spec(m2))
                } else {
                    Ok(m2)
                },
            },
        }
    }
}

/// How one call that executes a cycle relates the machine states before
/// and after: on success the state steps as `cycle_spec` says; a fatal
/// error is returned to the caller and leaves the state unchanged.
pub open spec fn cycle_matches(
    pre: MachineView,
    post: MachineView,
    rand_byte: u8,
    r: Result<(), Chip8Error>,
) -> bool {
    match cycle_spec(pre, rand_byte) {
        Ok(m2) => r is Ok && post == m2,
        Err(e) => r == Err::<(), Chip8Error>(e) && post == pre,
    }
}

} // verus!
