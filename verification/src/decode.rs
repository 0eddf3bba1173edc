//! The decoder: a pure function from a 16-bit instruction word to one of
//! the recognized instruction forms, with its operand fields.
use vstd::prelude::*;

use crate::Chip8Error;

verus! {

/// A decoded instruction. Register operands are nibbles (below 16),
/// addresses are 12 bits (below 4096).
#[derive(Clone, Copy, Debug, PartialEq, Eq, Structural)]
pub enum Instr {
    /// `00E0`: turn every display cell off.
    Cls,
    /// `00EE`: pop the call stack and jump to the popped address.
    Ret,
    /// `1nnn`: jump to `nnn`.
    Jump(u16),
    /// `2nnn`: push the advanced program counter, then jump to `nnn`.
    Call(u16),
    /// `3xnn`: skip the next instruction when Vx equals `nn`.
    SkipEqImm(u8, u8),
    /// `4xnn`: skip the next instruction when Vx differs from `nn`.
    SkipNeImm(u8, u8),
    /// `5xy0`: skip the next instruction when Vx equals Vy.
    SkipEqReg(u8, u8),
    /// `6xnn`: load `nn` into Vx.
    LoadImm(u8, u8),
    /// `7xnn`: add `nn` to Vx, wrapping modulo 256, with no carry flag.
    AddImm(u8, u8),
    /// `8xy0`: copy Vy into Vx.
    CopyReg(u8, u8),
    /// `8xy1`: bitwise OR of Vx and Vy into Vx.
    OrReg(u8, u8),
    /// `8xy2`: bitwise AND of Vx and Vy into Vx.
    AndReg(u8, u8),
    /// `8xy3`: bitwise XOR of Vx and Vy into Vx.
    XorReg(u8, u8),
    /// `8xy4`: add Vy to Vx with wrap; VF becomes 1 exactly on overflow.
    AddReg(u8, u8),
    /// `8xy5`: Vx minus Vy with wrap; VF becomes 1 exactly when no borrow.
    SubReg(u8, u8),
    /// `8xy6`: VF takes the low bit of Vx, then Vx shifts right by one.
    ShrReg(u8),
    /// `8xy7`: Vy minus Vx with wrap; VF becomes 1 exactly when no borrow.
    SubFrom(u8, u8),
    /// `8xyE`: VF takes the high bit of Vx, then Vx shifts left by one.
    ShlReg(u8),
    /// `9xy0`: skip the next instruction when Vx differs from Vy.
    SkipNeReg(u8, u8),
    /// `Annn`: load `nnn` into the address register.
    LoadI(u16),
    /// `Bnnn`: jump to V0 plus `nnn`, wrapping modulo 2^16.
    JumpV0(u16),
    /// `Cxnn`: load a random byte masked by `nn` into Vx.
    Rand(u8, u8),
    /// `Dxyn`: draw the `n`-byte sprite at the address register to
    /// (Vx mod 64, Vy mod 32), clipping at the edges; VF reports collision.
    Draw(u8, u8, u8),
    /// `Ex9E`: skip the next instruction when the key named by the low
    /// nibble of Vx is held.
    SkipKey(u8),
    /// `ExA1`: skip the next instruction when the key named by the low
    /// nibble of Vx was just released.
    SkipNoKey(u8),
    /// `Fx07`: load the delay timer into Vx.
    GetDelay(u8),
    /// `Fx0A`: wait for a key by re-running this instruction until one is
    /// held, then load the lowest held key's code into Vx.
    WaitKey(u8),
    /// `Fx15`: store Vx into the delay timer.
    SetDelay(u8),
    /// `Fx18`: store Vx into the sound timer.
    SetSound(u8),
    /// `Fx1E`: add Vx to the address register, wrapping modulo 2^16.
    AddI(u8),
    /// `Fx29`: point the address register at the font glyph for Vx.
    FontAddr(u8),
    /// `Fx33`: write the decimal digits of Vx to memory at I, I+1, I+2.
    Bcd(u8),
    /// `Fx55`: store V0 up to but not including Vx into memory at I.
    StoreRegs(u8),
    /// `Fx65`: load V0 up to but not including Vx from memory at I.
    LoadRegs(u8),
}

/// The second nibble of an instruction word.
pub open spec fn op_x(w: u16) -> u8 {
    ((w >> 8) & 0xF) as u8
}

/// The third nibble of an instruction word.
pub open spec fn op_y(w: u16) -> u8 {
    ((w >> 4) & 0xF) as u8
}

/// The low nibble of an instruction word.
pub open spec fn op_n(w: u16) -> u8 {
    (w & 0xF) as u8
}

/// The low byte of an instruction word.
pub open spec fn op_nn(w: u16) -> u8 {
    (w & 0xFF) as u8
}

/// The low 12 bits of an instruction word.
pub open spec fn op_nnn(w: u16) -> u16 {
    w & 0xFFF
}

/// What a word decodes to: one recognized form, or nothing. The families
/// 0x0, 0x8, 0xE and 0xF dispatch on the low byte or low nibble and reject
/// unrecognized sub-forms; every other family is unconditionally valid.
pub open spec fn spec_decode(w: u16) -> Option<Instr> {
    let fam: u8 = (w >> 12) as u8;
    let x = op_x(w);
    let y = op_y(w);
    let n = op_n(w);
    let nn = op_nn(w);
    let nnn = op_nnn(w);
    if fam == 0x0 {
        if nn == 0xE0 { Some(Instr::Cls) }
        else if nn == 0xEE { Some(Instr::Ret) }
        else { None }
    } else if fam == 0x1 { Some(Instr::Jump(nnn)) }
    else if fam == 0x2 { Some(Instr::Call(nnn)) }
    else if fam == 0x3 { Some(Instr::SkipEqImm(x, nn)) }
    else if fam == 0x4 { Some(Instr::SkipNeImm(x, nn)) }
    else if fam == 0x5 { Some(Instr::SkipEqReg(x, y)) }
    else if fam == 0x6 { Some(Instr::LoadImm(x, nn)) }
    else if fam == 0x7 { Some(Instr::AddImm(x, nn)) }
    else if fam == 0x8 {
        if n == 0x0 { Some(Instr::CopyReg(x, y)) }
        else if n == 0x1 { Some(Instr::OrReg(x, y)) }
        else if n == 0x2 { Some(Instr::AndReg(x, y)) }
        else if n == 0x3 { Some(Instr::XorReg(x, y)) }
        else if n == 0x4 { Some(Instr::AddReg(x, y)) }
        else if n == 0x5 { Some(Instr::SubReg(x, y)) }
        else if n == 0x6 { Some(Instr::ShrReg(x)) }
        else if n == 0x7 { Some(Instr::SubFrom(x, y)) }
        else if n == 0xE { Some(Instr::ShlReg(x)) }
        else { None }
    } else if fam == 0x9 { Some(Instr::SkipNeReg(x, y)) }
    else if fam == 0xA { Some(Instr::LoadI(nnn)) }
    else if fam == 0xB { Some(Instr::JumpV0(nnn)) }
    else if fam == 0xC { Some(Instr::Rand(x, nn)) }
    else if fam == 0xD { Some(Instr::Draw(x, y, n)) }
    else if fam == 0xE {
        if nn == 0x9E { Some(Instr::SkipKey(x)) }
        else if nn == 0xA1 { Some(Instr::SkipNoKey(x)) }
        else { None }
    } else {
        if nn == 0x07 { Some(Instr::GetDelay(x)) }
        else if nn == 0x0A { Some(Instr::WaitKey(x)) }
        else if nn == 0x15 { Some(Instr::SetDelay(x)) }
        else if nn == 0x18 { Some(Instr::SetSound(x)) }
        else if nn == 0x1E { Some(Instr::AddI(x)) }
        else if nn == 0x29 { Some(Instr::FontAddr(x)) }
        else if nn == 0x33 { Some(Instr::Bcd(x)) }
        else if nn == 0x55 { Some(Instr::StoreRegs(x)) }
        else if nn == 0x65 { Some(Instr::LoadRegs(x)) }
        else { None }
    }
}

/// Every register operand of a decoded instruction is a nibble and every
/// address is 12 bits; the engine indexes registers on that strength.
pub open spec fn instr_ok(ins: Instr) -> bool {
    match ins {
        Instr::Cls => true,
        Instr::Ret => true,
        Instr::Jump(nnn) => nnn < 4096,
        Instr::Call(nnn) => nnn < 4096,
        Instr::SkipEqImm(x, _nn) => x < 16,
        Instr::SkipNeImm(x, _nn) => x < 16,
        Instr::SkipEqReg(x, y) => x < 16 && y < 16,
        Instr::LoadImm(x, _nn) => x < 16,
        Instr::AddImm(x, _nn) => x < 16,
        Instr::CopyReg(x, y) => x < 16 && y < 16,
        Instr::OrReg(x, y) => x < 16 && y < 16,
        Instr::AndReg(x, y) => x < 16 && y < 16,
        Instr::XorReg(x, y) => x < 16 && y < 16,
        Instr::AddReg(x, y) => x < 16 && y < 16,
        Instr::SubReg(x, y) => x < 16 && y < 16,
        Instr::ShrReg(x) => x < 16,
        Instr::SubFrom(x, y) => x < 16 && y < 16,
        Instr::ShlReg(x) => x < 16,
        Instr::SkipNeReg(x, y) => x < 16 && y < 16,
        Instr::LoadI(nnn) => nnn < 4096,
        Instr::JumpV0(nnn) => nnn < 4096,
        Instr::Rand(x, _nn) => x < 16,
        Instr::Draw(x, y, n) => x < 16 && y < 16 && n < 16,
        Instr::SkipKey(x) => x < 16,
        Instr::SkipNoKey(x) => x < 16,
        Instr::GetDelay(x) => x < 16,
        Instr::WaitKey(x) => x < 16,
        Instr::SetDelay(x) => x < 16,
        Instr::SetSound(x) => x < 16,
        Instr::AddI(x) => x < 16,
        Instr::FontAddr(x) => x < 16,
        Instr::Bcd(x) => x < 16,
        Instr::StoreRegs(x) => x < 16,
        Instr::LoadRegs(x) => x < 16,
    }
}

/// Decodes one instruction word. Returns exactly what `spec_decode` names,
/// and `IllegalOpcode` with the raw word exactly when no form is recognized.
pub fn decode(w: u16) -> (r: Result<Instr, Chip8Error>)
    ensures
        match r {
            Ok(ins) => spec_decode(w) == Some(ins) && instr_ok(ins),
            Err(e) => spec_decode(w) is None && e == Chip8Error::IllegalOpcode(w),
        },
{
    proof {
        assert(((w >> 8) & 0xF) < 16) by (bit_vector);
        assert(((w >> 4) & 0xF) < 16) by (bit_vector);
        assert((w & 0xF) < 16) by (bit_vector);
        assert((w & 0xFFF) < 4096) by (bit_vector);
    }
    let fam: u8 = (w >> 12) as u8;
    let x: u8 = ((w >> 8) & 0xF) as u8;
    let y: u8 = ((w >> 4) & 0xF) as u8;
    let n: u8 = (w & 0xF) as u8;
    let nn: u8 = (w & 0xFF) as u8;
    let nnn: u16 = w & 0xFFF;
    let r: Result<Instr, Chip8Error> = if fam == 0x0 {
        if nn == 0xE0 { Ok(Instr::Cls) }
        else if nn == 0xEE { Ok(Instr::Ret) }
        else { Err(Chip8Error::IllegalOpcode(w)) }
    } else if fam == 0x1 { Ok(Instr::Jump(nnn)) }
    else if fam == 0x2 { Ok(Instr::Call(nnn)) }
    else if fam == 0x3 { Ok(Instr::SkipEqImm(x, nn)) }
    else if fam == 0x4 { Ok(Instr::SkipNeImm(x, nn)) }
    else if fam == 0x5 { Ok(Instr::SkipEqReg(x, y)) }
    else if fam == 0x6 { Ok(Instr::LoadImm(x, nn)) }
    else if fam == 0x7 { Ok(Instr::AddImm(x, nn)) }
    else if fam == 0x8 {
        if n == 0x0 { Ok(Instr::CopyReg(x, y)) }
        else if n == 0x1 { Ok(Instr::OrReg(x, y)) }
        else if n == 0x2 { Ok(Instr::AndReg(x, y)) }
        else if n == 0x3 { Ok(Instr::XorReg(x, y)) }
        else if n == 0x4 { Ok(Instr::AddReg(x, y)) }
        else if n == 0x5 { Ok(Instr::SubReg(x, y)) }
        else if n == 0x6 { Ok(Instr::ShrReg(x)) }
        else if n == 0x7 { Ok(Instr::SubFrom(x, y)) }
        else if n == 0xE { Ok(Instr::ShlReg(x)) }
        else { Err(Chip8Error::IllegalOpcode(w)) }
    } else if fam == 0x9 { Ok(Instr::SkipNeReg(x, y)) }
    else if fam == 0xA { Ok(Instr::LoadI(nnn)) }
    else if fam == 0xB { Ok(Instr::JumpV0(nnn)) }
    else if fam == 0xC { Ok(Instr::Rand(x, nn)) }
    else if fam == 0xD { Ok(Instr::Draw(x, y, n)) }
    else if fam == 0xE {
        if nn == 0x9E { Ok(Instr::SkipKey(x)) }
        else if nn == 0xA1 { Ok(Instr::SkipNoKey(x)) }
        else { Err(Chip8Error::IllegalOpcode(w)) }
    } else {
        if nn == 0x07 { Ok(Instr::GetDelay(x)) }
        else if nn == 0x0A { Ok(Instr::WaitKey(x)) }
        else if nn == 0x15 { Ok(Instr::SetDelay(x)) }
        else if nn == 0x18 { Ok(Instr::SetSound(x)) }
        else if nn == 0x1E { Ok(Instr::AddI(x)) }
        else if nn == 0x29 { Ok(Instr::FontAddr(x)) }
        else if nn == 0x33 { Ok(Instr::Bcd(x)) }
        else if nn == 0x55 { Ok(Instr::StoreRegs(x)) }
        else if nn == 0x65 { Ok(Instr::LoadRegs(x)) }
        else { Err(Chip8Error::IllegalOpcode(w)) }
    };
    r
}

} // verus!
