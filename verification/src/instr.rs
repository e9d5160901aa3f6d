//! Decoding of 16-bit opcodes into the standard CHIP-8 instruction set.
//!
//! An opcode is split into nibble fields: the top nibble selects the
//! instruction family, and for the 0x0, 0x5, 0x8, 0x9, 0xE and 0xF
//! families a secondary nibble or byte selects the operation. Any opcode
//! that does not decode to one of the 35 standard operations is rejected,
//! uniformly, as a decode error by the caller.

use vstd::prelude::*;

verus! {

/// One decoded CHIP-8 instruction. Register operands `x` and `y` are
/// nibble values, so they are always below 16; `nnn` is a 12-bit address,
/// `nn` an 8-bit immediate and `n` a 4-bit sprite height.
#[derive(Clone, Copy, Debug, PartialEq, Eq, Structural)]
pub enum Instr {
    /// `00E0`: zero every framebuffer cell.
    ClearScreen,
    /// `00EE`: return from a subroutine.
    Return,
    /// `1NNN`: jump to `NNN`.
    Jump { nnn: u16 },
    /// `2NNN`: call the subroutine at `NNN`.
    Call { nnn: u16 },
    /// `3XNN`: skip the next instruction if `VX == NN`.
    SkipEqImm { x: u8, nn: u8 },
    /// `4XNN`: skip the next instruction if `VX != NN`.
    SkipNeImm { x: u8, nn: u8 },
    /// `5XY0`: skip the next instruction if `VX == VY`.
    SkipEqReg { x: u8, y: u8 },
    /// `6XNN`: set `VX` to `NN`.
    SetImm { x: u8, nn: u8 },
    /// `7XNN`: add `NN` to `VX`, wrapping modulo 256, without touching `VF`.
    AddImm { x: u8, nn: u8 },
    /// `8XY0`: set `VX` to `VY`.
    Assign { x: u8, y: u8 },
    /// `8XY1`: set `VX` to `VX | VY`.
    OrReg { x: u8, y: u8 },
    /// `8XY2`: set `VX` to `VX & VY`.
    AndReg { x: u8, y: u8 },
    /// `8XY3`: set `VX` to `VX ^ VY`.
    XorReg { x: u8, y: u8 },
    /// `8XY4`: add `VY` to `VX`, wrapping; `VF` takes the carry bit.
    AddReg { x: u8, y: u8 },
    /// `8XY5`: subtract `VY` from `VX`, wrapping; `VF` is 1 when there is
    /// no borrow.
    SubReg { x: u8, y: u8 },
    /// `8XY6`: shift `VX` right by one; `VF` takes the bit shifted out.
    ShiftRight { x: u8 },
    /// `8XY7`: set `VX` to `VY - VX`, wrapping; `VF` is 1 when there is
    /// no borrow.
    SubFrom { x: u8, y: u8 },
    /// `8XYE`: shift `VX` left by one; `VF` takes the bit shifted out.
    ShiftLeft { x: u8 },
    /// `9XY0`: skip the next instruction if `VX != VY`.
    SkipNeReg { x: u8, y: u8 },
    /// `ANNN`: set the index register `I` to `NNN`.
    SetIndex { nnn: u16 },
    /// `BNNN`: jump to `NNN + V0`.
    JumpPlusV0 { nnn: u16 },
    /// `CXNN`: draw a random byte, mask it with `NN`, and AND the result
    /// into `VX`.
    RandomAnd { x: u8, nn: u8 },
    /// `DXYN`: XOR an 8-wide, `N`-tall sprite read from memory at `I`
    /// onto the framebuffer at `(VX, VY)`; `VF` reports collisions.
    Draw { x: u8, y: u8, n: u8 },
    /// `EX9E`: skip the next instruction if the key indexed by `VX` is
    /// pressed.
    SkipKeyPressed { x: u8 },
    /// `EXA1`: skip the next instruction if the key indexed by `VX` is
    /// not pressed.
    SkipKeyNotPressed { x: u8 },
    /// `FX07`: set `VX` to the delay timer.
    GetDelay { x: u8 },
    /// `FX0A`: suspend execution until a key press is supplied, then
    /// store the key index in `VX`.
    WaitKey { x: u8 },
    /// `FX15`: set the delay timer to `VX`.
    SetDelay { x: u8 },
    /// `FX18`: set the sound timer to `VX`.
    SetSound { x: u8 },
    /// `FX1E`: add `VX` to `I`, wrapping; `VF` reports the range overflow.
    AddIndex { x: u8 },
    /// `FX29`: point `I` at the font sprite for the digit in `VX`.
    SetFontIndex { x: u8 },
    /// `FX33`: store the three decimal digits of `VX` at `I`, `I+1`, `I+2`.
    StoreBcd { x: u8 },
    /// `FX55`: store `V0..=VX` into memory starting at `I`; `I` is not
    /// changed.
    DumpRegs { x: u8 },
    /// `FX65`: load `V0..=VX` from memory starting at `I`; `I` is not
    /// changed.
    LoadRegs { x: u8 },
}

/// The `X` register operand: bits 8..=11 of the opcode.
pub open spec fn op_x(op: u16) -> u8 {
    (((op / 256) % 16) as u8)
}

/// The `Y` register operand: bits 4..=7 of the opcode.
pub open spec fn op_y(op: u16) -> u8 {
    (((op / 16) % 16) as u8)
}

/// The low nibble of the opcode.
pub open spec fn op_n(op: u16) -> u8 {
    ((op % 16) as u8)
}

/// The low byte of the opcode.
pub open spec fn op_nn(op: u16) -> u8 {
    ((op % 256) as u8)
}

/// The 12-bit address operand of the opcode.
pub open spec fn op_nnn(op: u16) -> u16 {
    op % 4096
}

/// The top nibble of the opcode, selecting the instruction family.
pub open spec fn op_family(op: u16) -> u16 {
    op / 4096
}

/// Register and height operands of a decoded instruction are nibbles.
pub open spec fn instr_wf(instr: Instr) -> bool {
    match instr {
        Instr::ClearScreen => true,
        Instr::Return => true,
        Instr::Jump { nnn } => nnn < 4096,
        Instr::Call { nnn } => nnn < 4096,
        Instr::SkipEqImm { x, nn } => x < 16,
        Instr::SkipNeImm { x, nn } => x < 16,
        Instr::SkipEqReg { x, y } => x < 16 && y < 16,
        Instr::SetImm { x, nn } => x < 16,
        Instr::AddImm { x, nn } => x < 16,
        Instr::Assign { x, y } => x < 16 && y < 16,
        Instr::OrReg { x, y } => x < 16 && y < 16,
        Instr::AndReg { x, y } => x < 16 && y < 16,
        Instr::XorReg { x, y } => x < 16 && y < 16,
        Instr::AddReg { x, y } => x < 16 && y < 16,
        Instr::SubReg { x, y } => x < 16 && y < 16,
        Instr::ShiftRight { x } => x < 16,
        Instr::SubFrom { x, y } => x < 16 && y < 16,
        Instr::ShiftLeft { x } => x < 16,
        Instr::SkipNeReg { x, y } => x < 16 && y < 16,
        Instr::SetIndex { nnn } => nnn < 4096,
        Instr::JumpPlusV0 { nnn } => nnn < 4096,
        Instr::RandomAnd { x, nn } => x < 16,
        Instr::Draw { x, y, n } => x < 16 && y < 16 && n < 16,
        Instr::SkipKeyPressed { x } => x < 16,
        Instr::SkipKeyNotPressed { x } => x < 16,
        Instr::GetDelay { x } => x < 16,
        Instr::WaitKey { x } => x < 16,
        Instr::SetDelay { x } => x < 16,
        Instr::SetSound { x } => x < 16,
        Instr::AddIndex { x } => x < 16,
        Instr::SetFontIndex { x } => x < 16,
        Instr::StoreBcd { x } => x < 16,
        Instr::DumpRegs { x } => x < 16,
        Instr::LoadRegs { x } => x < 16,
    }
}

/// The meaning of each opcode, as a partial map from opcodes to
/// instructions: `None` marks an opcode outside the standard set.
pub open spec fn decode_spec(op: u16) -> Option<Instr> {
    let x = op_x(op);
    let y = op_y(op);
    let n = op_n(op);
    let nn = op_nn(op);
    let nnn = op_nnn(op);
    let family = op_family(op);
    if op == 0x00E0 {
        Some(Instr::ClearScreen)
    } else if op == 0x00EE {
        Some(Instr::Return)
    } else if family == 0x1 {
        Some(Instr::Jump { nnn })
    } else if family == 0x2 {
        Some(Instr::Call { nnn })
    } else if family == 0x3 {
        Some(Instr::SkipEqImm { x, nn })
    } else if family == 0x4 {
        Some(Instr::SkipNeImm { x, nn })
    } else if family == 0x5 && n == 0x0 {
        Some(Instr::SkipEqReg { x, y })
    } else if family == 0x6 {
        Some(Instr::SetImm { x, nn })
    } else if family == 0x7 {
        Some(Instr::AddImm { x, nn })
    } else if family == 0x8 && n == 0x0 {
        Some(Instr::Assign { x, y })
    } else if family == 0x8 && n == 0x1 {
        Some(Instr::OrReg { x, y })
    } else if family == 0x8 && n == 0x2 {
        Some(Instr::AndReg { x, y })
    } else if family == 0x8 && n == 0x3 {
        Some(Instr::XorReg { x, y })
    } else if family == 0x8 && n == 0x4 {
        Some(Instr::AddReg { x, y })
    } else if family == 0x8 && n == 0x5 {
        Some(Instr::SubReg { x, y })
    } else if family == 0x8 && n == 0x6 {
        Some(Instr::ShiftRight { x })
    } else if family == 0x8 && n == 0x7 {
        Some(Instr::SubFrom { x, y })
    } else if family == 0x8 && n == 0xE {
        Some(Instr::ShiftLeft { x })
    } else if family == 0x9 && n == 0x0 {
        Some(Instr::SkipNeReg { x, y })
    } else if family == 0xA {
        Some(Instr::SetIndex { nnn })
    } else if family == 0xB {
        Some(Instr::JumpPlusV0 { nnn })
    } else if family == 0xC {
        Some(Instr::RandomAnd { x, nn })
    } else if family == 0xD {
        Some(Instr::Draw { x, y, n })
    } else if family == 0xE && nn == 0x9E {
        Some(Instr::SkipKeyPressed { x })
    } else if family == 0xE && nn == 0xA1 {
        Some(Instr::SkipKeyNotPressed { x })
    } else if family == 0xF && nn == 0x07 {
        Some(Instr::GetDelay { x })
    } else if family == 0xF && nn == 0x0A {
        Some(Instr::WaitKey { x })
    } else if family == 0xF && nn == 0x15 {
        Some(Instr::SetDelay { x })
    } else if family == 0xF && nn == 0x18 {
        Some(Instr::SetSound { x })
    } else if family == 0xF && nn == 0x1E {
        Some(Instr::AddIndex { x })
    } else if family == 0xF && nn == 0x29 {
        Some(Instr::SetFontIndex { x })
    } else if family == 0xF && nn == 0x33 {
        Some(Instr::StoreBcd { x })
    } else if family == 0xF && nn == 0x55 {
        Some(Instr::DumpRegs { x })
    } else if family == 0xF && nn == 0x65 {
        Some(Instr::LoadRegs { x })
    } else {
        None
    }
}

/// Decode an opcode, returning `None` for any opcode outside the
/// standard CHIP-8 set.
pub fn decode(op: u16) -> (r: Option<Instr>)
    ensures
        r == decode_spec(op),
        r matches Some(instr) ==> instr_wf(instr),
{
    let x: u8 = ((op / 256) % 16) as u8;
    let y: u8 = ((op / 16) % 16) as u8;
    let n: u8 = (op % 16) as u8;
    let nn: u8 = (op % 256) as u8;
    let nnn: u16 = op % 4096;
    let family: u16 = op / 4096;
    if op == 0x00E0 {
        Some(Instr::ClearScreen)
    } else if op == 0x00EE {
        Some(Instr::Return)
    } else if family == 0x1 {
        Some(Instr::Jump { nnn })
    } else if family == 0x2 {
        Some(Instr::Call { nnn })
    } else if family == 0x3 {
        Some(Instr::SkipEqImm { x, nn })
    } else if family == 0x4 {
        Some(Instr::SkipNeImm { x, nn })
    } else if family == 0x5 && n == 0x0 {
        Some(Instr::SkipEqReg { x, y })
    } else if family == 0x6 {
        Some(Instr::SetImm { x, nn })
    } else if family == 0x7 {
        Some(Instr::AddImm { x, nn })
    } else if family == 0x8 && n == 0x0 {
        Some(Instr::Assign { x, y })
    } else if family == 0x8 && n == 0x1 {
        Some(Instr::OrReg { x, y })
    } else if family == 0x8 && n == 0x2 {
        Some(Instr::AndReg { x, y })
    } else if family == 0x8 && n == 0x3 {
        Some(Instr::XorReg { x, y })
    } else if family == 0x8 && n == 0x4 {
        Some(Instr::AddReg { x, y })
    } else if family == 0x8 && n == 0x5 {
        Some(Instr::SubReg { x, y })
    } else if family == 0x8 && n == 0x6 {
        Some(Instr::ShiftRight { x })
    } else if family == 0x8 && n == 0x7 {
        Some(Instr::SubFrom { x, y })
    } else if family == 0x8 && n == 0xE {
        Some(Instr::ShiftLeft { x })
    } else if family == 0x9 && n == 0x0 {
        Some(Instr::SkipNeReg { x, y })
    } else if family == 0xA {
        Some(Instr::SetIndex { nnn })
    } else if family == 0xB {
        Some(Instr::JumpPlusV0 { nnn })
    } else if family == 0xC {
        Some(Instr::RandomAnd { x, nn })
    } else if family == 0xD {
        Some(Instr::Draw { x, y, n })
    } else if family == 0xE && nn == 0x9E {
        Some(Instr::SkipKeyPressed { x })
    } else if family == 0xE && nn == 0xA1 {
        Some(Instr::SkipKeyNotPressed { x })
    } else if family == 0xF && nn == 0x07 {
        Some(Instr::GetDelay { x })
    } else if family == 0xF && nn == 0x0A {
        Some(Instr::WaitKey { x })
    } else if family == 0xF && nn == 0x15 {
        Some(Instr::SetDelay { x })
    } else if family == 0xF && nn == 0x18 {
        Some(Instr::SetSound { x })
    } else if family == 0xF && nn == 0x1E {
        Some(Instr::AddIndex { x })
    } else if family == 0xF && nn == 0x29 {
        Some(Instr::SetFontIndex { x })
    } else if family == 0xF && nn == 0x33 {
        Some(Instr::StoreBcd { x })
    } else if family == 0xF && nn == 0x55 {
        Some(Instr::DumpRegs { x })
    } else if family == 0xF && nn == 0x65 {
        Some(Instr::LoadRegs { x })
    } else {
        None
    }
}

} // verus!
