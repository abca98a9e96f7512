//! Decoding of 16-bit opcodes into instructions.
//!
//! An opcode splits into four 4-bit nibbles, highest first. Nibble patterns
//! select the instruction; the remaining nibbles carry operand fields: a
//! register index `x` or `y`, a nibble literal `n`, a byte literal `kk`, or
//! a 12-bit address.
use vstd::prelude::*;

verus! {

/// A decoded CHIP-8 instruction.
#[derive(Clone, Copy, Debug, PartialEq, Eq, Structural)]
pub enum Instr {
    /// No operation.
    Nop,
    /// Clear the framebuffer.
    Cls,
    /// Return from a subroutine.
    Ret,
    /// Jump to an address.
    Jmp(u16),
    /// Call a subroutine at an address.
    Call(u16),
    /// Skip the next instruction if Vx equals a byte.
    SkipEqByte(usize, u8),
    /// Skip the next instruction if Vx differs from a byte.
    SkipNeByte(usize, u8),
    /// Skip the next instruction if Vx equals Vy.
    SkipEqReg(usize, usize),
    /// Set Vx to a byte.
    LdByte(usize, u8),
    /// Add a byte to Vx, wrapping; the flag register is untouched.
    AddByte(usize, u8),
    /// Set Vx to Vy.
    LdReg(usize, usize),
    /// Set Vx to Vx | Vy.
    Or(usize, usize),
    /// Set Vx to Vx & Vy.
    And(usize, usize),
    /// Set Vx to Vx ^ Vy.
    Xor(usize, usize),
    /// Set Vx to Vx + Vy wrapped; VF becomes the carry.
    AddReg(usize, usize),
    /// Set Vx to Vx - Vy wrapped; VF becomes 1 when no borrow occurred.
    SubReg(usize, usize),
    /// Set VF to the least significant bit of Vx, then halve Vx.
    Shr(usize),
    /// Set Vx to Vy - Vx wrapped; VF becomes 1 when a borrow occurred.
    SubnReg(usize, usize),
    /// Set VF to the most significant bit of Vx, then double Vx, wrapping.
    Shl(usize),
    /// Skip the next instruction if Vx differs from Vy.
    SkipNeReg(usize, usize),
    /// Set the address register I.
    LdI(u16),
    /// Jump to an address plus V0.
    JmpV0(u16),
    /// Set Vx to a random byte masked with a byte.
    Rnd(usize, u8),
    /// Draw an n-byte sprite from memory at I at position (Vx, Vy).
    Draw(usize, usize, u8),
    /// Skip the next instruction if the key indexed by Vx is pressed.
    SkipKey(usize),
    /// Skip the next instruction if the key indexed by Vx is not pressed.
    SkipNoKey(usize),
    /// Set Vx to the delay timer.
    LdFromDt(usize),
    /// Store the lowest pressed key in Vx, or rewind to poll again.
    WaitKey(usize),
    /// Set the delay timer to Vx.
    LdDt(usize),
    /// Set the sound timer to Vx.
    LdSt(usize),
    /// Add Vx to the address register I, wrapping.
    AddI(usize),
    /// Point I at the built-in glyph for the digit Vx.
    LdFont(usize),
    /// Store the three decimal digits of Vx at I, I+1, I+2.
    Bcd(usize),
    /// Store V0..Vx inclusive into memory starting at I.
    StoreRegs(usize),
    /// Load V0..Vx inclusive from memory starting at I.
    LoadRegs(usize),
}

impl Instr {
    /// Every register index carried by the instruction is in range.
    pub open spec fn wf(self) -> bool {
        match self {
            Instr::SkipEqByte(x, _) => x < 16,
            Instr::SkipNeByte(x, _) => x < 16,
            Instr::SkipEqReg(x, y) => x < 16 && y < 16,
            Instr::LdByte(x, _) => x < 16,
            Instr::AddByte(x, _) => x < 16,
            Instr::LdReg(x, y) => x < 16 && y < 16,
            Instr::Or(x, y) => x < 16 && y < 16,
            Instr::And(x, y) => x < 16 && y < 16,
            Instr::Xor(x, y) => x < 16 && y < 16,
            Instr::AddReg(x, y) => x < 16 && y < 16,
            Instr::SubReg(x, y) => x < 16 && y < 16,
            Instr::Shr(x) => x < 16,
            Instr::SubnReg(x, y) => x < 16 && y < 16,
            Instr::Shl(x) => x < 16,
            Instr::SkipNeReg(x, y) => x < 16 && y < 16,
            Instr::Rnd(x, _) => x < 16,
            Instr::Draw(x, y, n) => x < 16 && y < 16 && n < 16,
            Instr::SkipKey(x) => x < 16,
            Instr::SkipNoKey(x) => x < 16,
            Instr::LdFromDt(x) => x < 16,
            Instr::WaitKey(x) => x < 16,
            Instr::LdDt(x) => x < 16,
            Instr::LdSt(x) => x < 16,
            Instr::AddI(x) => x < 16,
            Instr::LdFont(x) => x < 16,
            Instr::Bcd(x) => x < 16,
            Instr::StoreRegs(x) => x < 16,
            Instr::LoadRegs(x) => x < 16,
            Instr::Jmp(a) => a <= 0xFFF,
            Instr::Call(a) => a <= 0xFFF,
            Instr::LdI(a) => a <= 0xFFF,
            Instr::JmpV0(a) => a <= 0xFFF,
            _ => true,
        }
    }
}

/// The instruction an opcode decodes to, or `None` for an unrecognized
/// bit pattern.
pub open spec fn spec_decode(op: u16) -> Option<Instr> {
    let n1 = (op >> 12) & 0xF;
    let n2 = (op >> 8) & 0xF;
    let n3 = (op >> 4) & 0xF;
    let n4 = op & 0xF;
    let x = ((op >> 8) & 0xF) as usize;
    let y = ((op >> 4) & 0xF) as usize;
    let n = (op & 0xF) as u8;
    let kk = (op & 0xFF) as u8;
    let addr = op & 0xFFF;
    if n1 == 0x0 && n2 == 0x0 && n3 == 0x0 && n4 == 0x0 {
        Some(Instr::Nop)
    } else if n1 == 0x0 && n2 == 0x0 && n3 == 0xE && n4 == 0x0 {
        Some(Instr::Cls)
    } else if n1 == 0x0 && n2 == 0x0 && n3 == 0xE && n4 == 0xE {
        Some(Instr::Ret)
    } else if n1 == 0x1 {
        Some(Instr::Jmp(addr))
    } else if n1 == 0x2 {
        Some(Instr::Call(addr))
    } else if n1 == 0x3 {
        Some(Instr::SkipEqByte(x, kk))
    } else if n1 == 0x4 {
        Some(Instr::SkipNeByte(x, kk))
    } else if n1 == 0x5 && n4 == 0x0 {
        Some(Instr::SkipEqReg(x, y))
    } else if n1 == 0x6 {
        Some(Instr::LdByte(x, kk))
    } else if n1 == 0x7 {
        Some(Instr::AddByte(x, kk))
    } else if n1 == 0x8 && n4 == 0x0 {
        Some(Instr::LdReg(x, y))
    } else if n1 == 0x8 && n4 == 0x1 {
        Some(Instr::Or(x, y))
    } else if n1 == 0x8 && n4 == 0x2 {
        Some(Instr::And(x, y))
    } else if n1 == 0x8 && n4 == 0x3 {
        Some(Instr::Xor(x, y))
    } else if n1 == 0x8 && n4 == 0x4 {
        Some(Instr::AddReg(x, y))
    } else if n1 == 0x8 && n4 == 0x5 {
        Some(Instr::SubReg(x, y))
    } else if n1 == 0x8 && n4 == 0x6 {
        Some(Instr::Shr(x))
    } else if n1 == 0x8 && n4 == 0x7 {
        Some(Instr::SubnReg(x, y))
    } else if n1 == 0x8 && n4 == 0xE {
        Some(Instr::Shl(x))
    } else if n1 == 0x9 && n4 == 0x0 {
        Some(Instr::SkipNeReg(x, y))
    } else if n1 == 0xA {
        Some(Instr::LdI(addr))
    } else if n1 == 0xB {
        Some(Instr::JmpV0(addr))
    } else if n1 == 0xC {
        Some(Instr::Rnd(x, kk))
    } else if n1 == 0xD {
        Some(Instr::Draw(x, y, n))
    } else if n1 == 0xE && n3 == 0x9 && n4 == 0xE {
        Some(Instr::SkipKey(x))
    } else if n1 == 0xE && n3 == 0xA && n4 == 0x1 {
        Some(Instr::SkipNoKey(x))
    } else if n1 == 0xF && n3 == 0x0 && n4 == 0x7 {
        Some(Instr::LdFromDt(x))
    } else if n1 == 0xF && n3 == 0x0 && n4 == 0xA {
        Some(Instr::WaitKey(x))
    } else if n1 == 0xF && n3 == 0x1 && n4 == 0x5 {
        Some(Instr::LdDt(x))
    } else if n1 == 0xF && n3 == 0x1 && n4 == 0x8 {
        Some(Instr::LdSt(x))
    } else if n1 == 0xF && n3 == 0x1 && n4 == 0xE {
        Some(Instr::AddI(x))
    } else if n1 == 0xF && n3 == 0x2 && n4 == 0x9 {
        Some(Instr::LdFont(x))
    } else if n1 == 0xF && n3 == 0x3 && n4 == 0x3 {
        Some(Instr::Bcd(x))
    } else if n1 == 0xF && n3 == 0x5 && n4 == 0x5 {
        Some(Instr::StoreRegs(x))
    } else if n1 == 0xF && n3 == 0x6 && n4 == 0x5 {
        Some(Instr::LoadRegs(x))
    } else {
        None
    }
}

/// A decoded instruction always carries register indices below 16 and a
/// sprite height below 16, since each comes from a single nibble.
pub proof fn lemma_decode_wf(op: u16)
    ensures
        spec_decode(op) matches Some(i) ==> i.wf(),
{
    assert(((op >> 8) & 0xF) < 16) by (bit_vector);
    assert(((op >> 4) & 0xF) < 16) by (bit_vector);
    assert((op & 0xF) < 16) by (bit_vector);
    assert((op & 0xFFF) <= 0xFFF) by (bit_vector);
}

/// Decodes one opcode, exactly as `spec_decode` states.
pub fn decode_op(op: u16) -> (r: Option<Instr>)
    ensures
        r == spec_decode(op),
{
    let part1: u16 = (op >> 12) & 0xF;
    let part2: u16 = (op >> 8) & 0xF;
    let part3: u16 = (op >> 4) & 0xF;
    let part4: u16 = op & 0xF;
    let x = part2 as usize;
    let y = part3 as usize;
    let n = part4 as u8;
    let kk = (op & 0xFF) as u8;
    let addr = op & 0xFFF;
    match (part1, part2, part3, part4) {
        (0, 0, 0, 0) => Some(Instr::Nop),
        (0, 0, 0xE, 0) => Some(Instr::Cls),
        (0, 0, 0xE, 0xE) => Some(Instr::Ret),
        (0x1, _, _, _) => Some(Instr::Jmp(addr)),
        (0x2, _, _, _) => Some(Instr::Call(addr)),
        (0x3, _, _, _) => Some(Instr::SkipEqByte(x, kk)),
        (0x4, _, _, _) => Some(Instr::SkipNeByte(x, kk)),
        (0x5, _, _, 0) => Some(Instr::SkipEqReg(x, y)),
        (0x6, _, _, _) => Some(Instr::LdByte(x, kk)),
        (0x7, _, _, _) => Some(Instr::AddByte(x, kk)),
        (0x8, _, _, 0) => Some(Instr::LdReg(x, y)),
        (0x8, _, _, 1) => Some(Instr::Or(x, y)),
        (0x8, _, _, 2) => Some(Instr::And(x, y)),
        (0x8, _, _, 3) => Some(Instr::Xor(x, y)),
        (0x8, _, _, 4) => Some(Instr::AddReg(x, y)),
        (0x8, _, _, 5) => Some(Instr::SubReg(x, y)),
        (0x8, _, _, 6) => Some(Instr::Shr(x)),
        (0x8, _, _, 7) => Some(Instr::SubnReg(x, y)),
        (0x8, _, _, 0xE) => Some(Instr::Shl(x)),
        (0x9, _, _, 0) => Some(Instr::SkipNeReg(x, y)),
        (0xA, _, _, _) => Some(Instr::LdI(addr)),
        (0xB, _, _, _) => Some(Instr::JmpV0(addr)),
        (0xC, _, _, _) => Some(Instr::Rnd(x, kk)),
        (0xD, _, _, _) => Some(Instr::Draw(x, y, n)),
        (0xE, _, 9, 0xE) => Some(Instr::SkipKey(x)),
        (0xE, _, 0xA, 1) => Some(Instr::SkipNoKey(x)),
        (0xF, _, 0, 7) => Some(Instr::LdFromDt(x)),
        (0xF, _, 0, 0xA) => Some(Instr::WaitKey(x)),
        (0xF, _, 1, 5) => Some(Instr::LdDt(x)),
        (0xF, _, 1, 8) => Some(Instr::LdSt(x)),
        (0xF, _, 1, 0xE) => Some(Instr::AddI(x)),
        (0xF, _, 2, 9) => Some(Instr::LdFont(x)),
        (0xF, _, 3, 3) => Some(Instr::Bcd(x)),
        (0xF, _, 5, 5) => Some(Instr::StoreRegs(x)),
        (0xF, _, 6, 5) => Some(Instr::LoadRegs(x)),
        (_, _, _, _) => None,
    }
}

} // verus!
