use vstd::prelude::*;

use crate::error::Chip8Error;

verus! {

/// A decoded opcode. `x` and `y` name registers, `nn` is an 8-bit immediate, `nnn` a
/// 12-bit address and `n` a 4-bit sprite height.
#[derive(Debug, Clone, Copy, PartialEq, Eq, Structural)]
pub enum Instruction {
    /// `0NNN`: legacy machine-code call, ignored.
    Sys(u16),
    /// `00E0`: clear the display.
    Clear,
    /// `00EE`: return from a subroutine.
    Return,
    /// `1NNN`: jump to NNN.
    Jump(u16),
    /// `2NNN`: call the subroutine at NNN.
    Call(u16),
    /// `3XNN`: skip if VX == NN.
    SkipEqImm(u8, u8),
    /// `4XNN`: skip if VX != NN.
    SkipNeImm(u8, u8),
    /// `5XY0`: skip if VX == VY.
    SkipEqReg(u8, u8),
    /// `6XNN`: VX := NN.
    LoadImm(u8, u8),
    /// `7XNN`: VX := VX + NN, wrapping, VF untouched.
    AddImm(u8, u8),
    /// `8XY0`: VX := VY.
    Move(u8, u8),
    /// `8XY1`: VX := VX | VY.
    Or(u8, u8),
    /// `8XY2`: VX := VX & VY.
    And(u8, u8),
    /// `8XY3`: VX := VX ^ VY.
    Xor(u8, u8),
    /// `8XY4`: VX := VX + VY, wrapping; then VF := carry.
    AddReg(u8, u8),
    /// `8XY5`: VX := VX - VY, wrapping; then VF := no borrow.
    SubReg(u8, u8),
    /// `8XY6`: VF := low bit of VY; then VX := VY >> 1.
    ShiftRight(u8, u8),
    /// `8XY7`: VX := VY - VX, wrapping; then VF := no borrow.
    SubRev(u8, u8),
    /// `8XYE`: VF := high bit of VY; then VX := VY << 1, wrapping.
    ShiftLeft(u8, u8),
    /// `9XY0`: skip if VX != VY.
    SkipNeReg(u8, u8),
    /// `ANNN`: I := NNN.
    LoadIndex(u16),
    /// `BNNN`: jump to NNN + V0.
    JumpOffset(u16),
    /// `CXNN`: VX := random byte & NN.
    Random(u8, u8),
    /// `DXYN`: draw the N-byte sprite at I at (VX, VY); VF := collision.
    Draw(u8, u8, u8),
    /// `EX9E`: skip if key VX is down.
    SkipKey(u8),
    /// `EXA1`: skip if key VX is up.
    SkipNoKey(u8),
    /// `FX07`: VX := delay timer.
    ReadDelay(u8),
    /// `FX0A`: wait for a key press and store it in VX.
    WaitKey(u8),
    /// `FX15`: delay timer := VX.
    SetDelay(u8),
    /// `FX18`: sound timer := VX.
    SetSound(u8),
    /// `FX1E`: I := I + VX, within the 12-bit address space; VF untouched.
    AddIndex(u8),
    /// `FX29`: I := address of the glyph for VX.
    Glyph(u8),
    /// `FX33`: store the decimal digits of VX at I, I+1, I+2.
    Bcd(u8),
    /// `FX55`: store V0..=VX from I; I unchanged.
    StoreRegs(u8),
    /// `FX65`: load V0..=VX from I; I unchanged.
    LoadRegs(u8),
}

/// The instruction that the byte pair `hi`, `lo` encodes, if any.
pub open spec fn decode_spec(hi: u8, lo: u8) -> Option<Instruction> {
    let n0 = hi / 16;
    let x = hi % 16;
    let y = lo / 16;
    let n = lo % 16;
    let nnn = (x as int * 256 + lo as int) as u16;
    if n0 == 0 {
        if hi == 0 && lo == 0xE0 {
            Some(Instruction::Clear)
        } else if hi == 0 && lo == 0xEE {
            Some(Instruction::Return)
        } else {
            Some(Instruction::Sys(nnn))
        }
    } else if n0 == 1 {
        Some(Instruction::Jump(nnn))
    } else if n0 == 2 {
        Some(Instruction::Call(nnn))
    } else if n0 == 3 {
        Some(Instruction::SkipEqImm(x, lo))
    } else if n0 == 4 {
        Some(Instruction::SkipNeImm(x, lo))
    } else if n0 == 5 {
        if n == 0 {
            Some(Instruction::SkipEqReg(x, y))
        } else {
            None
        }
    } else if n0 == 6 {
        Some(Instruction::LoadImm(x, lo))
    } else if n0 == 7 {
        Some(Instruction::AddImm(x, lo))
    } else if n0 == 8 {
        if n == 0 {
            Some(Instruction::Move(x, y))
        } else if n == 1 {
            Some(Instruction::Or(x, y))
        } else if n == 2 {
            Some(Instruction::And(x, y))
        } else if n == 3 {
            Some(Instruction::Xor(x, y))
        } else if n == 4 {
            Some(Instruction::AddReg(x, y))
        } else if n == 5 {
            Some(Instruction::SubReg(x, y))
        } else if n == 6 {
            Some(Instruction::ShiftRight(x, y))
        } else if n == 7 {
            Some(Instruction::SubRev(x, y))
        } else if n == 0xE {
            Some(Instruction::ShiftLeft(x, y))
        } else {
            None
        }
    } else if n0 == 9 {
        if n == 0 {
            Some(Instruction::SkipNeReg(x, y))
        } else {
            None
        }
    } else if n0 == 0xA {
        Some(Instruction::LoadIndex(nnn))
    } else if n0 == 0xB {
        Some(Instruction::JumpOffset(nnn))
    } else if n0 == 0xC {
        Some(Instruction::Random(x, lo))
    } else if n0 == 0xD {
        Some(Instruction::Draw(x, y, n))
    } else if n0 == 0xE {
        if lo == 0x9E {
            Some(Instruction::SkipKey(x))
        } else if lo == 0xA1 {
            Some(Instruction::SkipNoKey(x))
        } else {
            None
        }
    } else if lo == 0x07 {
        Some(Instruction::ReadDelay(x))
    } else if lo == 0x0A {
        Some(Instruction::WaitKey(x))
    } else if lo == 0x15 {
        Some(Instruction::SetDelay(x))
    } else if lo == 0x18 {
        Some(Instruction::SetSound(x))
    } else if lo == 0x1E {
        Some(Instruction::AddIndex(x))
    } else if lo == 0x29 {
        Some(Instruction::Glyph(x))
    } else if lo == 0x33 {
        Some(Instruction::Bcd(x))
    } else if lo == 0x55 {
        Some(Instruction::StoreRegs(x))
    } else if lo == 0x65 {
        Some(Instruction::LoadRegs(x))
    } else {
        None
    }
}

impl Instruction {
    /// Register operands name one of the sixteen registers, addresses fit in 12 bits and
    /// sprite heights in 4 bits: true of everything that decoding yields.
    pub open spec fn wf(self) -> bool {
        match self {
            Instruction::Sys(a) | Instruction::Jump(a) | Instruction::Call(a)
            | Instruction::LoadIndex(a) | Instruction::JumpOffset(a) => a < 0x1000,
            Instruction::Clear | Instruction::Return => true,
            Instruction::SkipEqImm(x, _) | Instruction::SkipNeImm(x, _)
            | Instruction::LoadImm(x, _) | Instruction::AddImm(x, _)
            | Instruction::Random(x, _) => x < 16,
            Instruction::SkipEqReg(x, y) | Instruction::Move(x, y) | Instruction::Or(x, y)
            | Instruction::And(x, y) | Instruction::Xor(x, y) | Instruction::AddReg(x, y)
            | Instruction::SubReg(x, y) | Instruction::ShiftRight(x, y)
            | Instruction::SubRev(x, y) | Instruction::ShiftLeft(x, y)
            | Instruction::SkipNeReg(x, y) => x < 16 && y < 16,
            Instruction::Draw(x, y, n) => x < 16 && y < 16 && n < 16,
            Instruction::SkipKey(x) | Instruction::SkipNoKey(x) | Instruction::ReadDelay(x)
            | Instruction::WaitKey(x) | Instruction::SetDelay(x) | Instruction::SetSound(x)
            | Instruction::AddIndex(x) | Instruction::Glyph(x) | Instruction::Bcd(x)
            | Instruction::StoreRegs(x) | Instruction::LoadRegs(x) => x < 16,
        }
    }

    /// Decodes the opcode whose high byte is `hi` and low byte is `lo`, or fails with
    /// `InvalidOpcode` where the pair encodes none.
    pub fn decode(hi: u8, lo: u8) -> (r: Result<Instruction, Chip8Error>)
        ensures
            r matches Ok(ins) ==> decode_spec(hi, lo) == Some(ins) && ins.wf(),
            r is Err <==> decode_spec(hi, lo) is None,
            r is Err ==> r == Err::<Instruction, Chip8Error>(Chip8Error::InvalidOpcode),
    {
        let n0 = hi / 16;
        let x = hi % 16;
        let y = lo / 16;
        let n = lo % 16;
        let nnn: u16 = x as u16 * 256 + lo as u16;
        let ins = if n0 == 0 {
            if hi == 0 && lo == 0xE0 {
                Instruction::Clear
            } else if hi == 0 && lo == 0xEE {
                Instruction::Return
            } else {
                Instruction::Sys(nnn)
            }
        } else if n0 == 1 {
            Instruction::Jump(nnn)
        } else if n0 == 2 {
            Instruction::Call(nnn)
        } else if n0 == 3 {
            Instruction::SkipEqImm(x, lo)
        } else if n0 == 4 {
            Instruction::SkipNeImm(x, lo)
        } else if n0 == 5 && n == 0 {
            Instruction::SkipEqReg(x, y)
        } else if n0 == 6 {
            Instruction::LoadImm(x, lo)
        } else if n0 == 7 {
            Instruction::AddImm(x, lo)
        } else if n0 == 8 && n == 0 {
            Instruction::Move(x, y)
        } else if n0 == 8 && n == 1 {
            Instruction::Or(x, y)
        } else if n0 == 8 && n == 2 {
            Instruction::And(x, y)
        } else if n0 == 8 && n == 3 {
            Instruction::Xor(x, y)
        } else if n0 == 8 && n == 4 {
            Instruction::AddReg(x, y)
        } else if n0 == 8 && n == 5 {
            Instruction::SubReg(x, y)
        } else if n0 == 8 && n == 6 {
            Instruction::ShiftRight(x, y)
        } else if n0 == 8 && n == 7 {
            Instruction::SubRev(x, y)
        } else if n0 == 8 && n == 0xE {
            Instruction::ShiftLeft(x, y)
        } else if n0 == 9 && n == 0 {
            Instruction::SkipNeReg(x, y)
        } else if n0 == 0xA {
            Instruction::LoadIndex(nnn)
        } else if n0 == 0xB {
            Instruction::JumpOffset(nnn)
        } else if n0 == 0xC {
            Instruction::Random(x, lo)
        } else if n0 == 0xD {
            Instruction::Draw(x, y, n)
        } else if n0 == 0xE && lo == 0x9E {
            Instruction::SkipKey(x)
        } else if n0 == 0xE && lo == 0xA1 {
            Instruction::SkipNoKey(x)
        } else if n0 == 0xF && lo == 0x07 {
            Instruction::ReadDelay(x)
        } else if n0 == 0xF && lo == 0x0A {
            Instruction::WaitKey(x)
        } else if n0 == 0xF && lo == 0x15 {
            Instruction::SetDelay(x)
        } else if n0 == 0xF && lo == 0x18 {
            Instruction::SetSound(x)
        } else if n0 == 0xF && lo == 0x1E {
            Instruction::AddIndex(x)
        } else if n0 == 0xF && lo == 0x29 {
            Instruction::Glyph(x)
        } else if n0 == 0xF && lo == 0x33 {
            Instruction::Bcd(x)
        } else if n0 == 0xF && lo == 0x55 {
            Instruction::StoreRegs(x)
        } else if n0 == 0xF && lo == 0x65 {
            Instruction::LoadRegs(x)
        } else {
            return Err(Chip8Error::InvalidOpcode);
        };
        Ok(ins)
    }
}

} // verus!
