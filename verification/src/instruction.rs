use crate::opcode::{nibble_of, Opcode};
use vstd::prelude::*;

verus! {

/// A decoded instruction: one of the 34 operations the engine knows, with
/// its operand fields already extracted. X and Y name general registers
/// (always below 16), KK is an 8-bit literal, NNN a 12-bit address, N a
/// 4-bit sprite height.
#[derive(Copy, Clone, PartialEq, Eq, Structural, Debug)]
pub enum Instruction {
    /// 00E0: clear the display.
    Cls,
    /// 00EE: return from a subroutine.
    Ret,
    /// 1NNN: jump to NNN, with no implicit advance.
    Jp { nnn: u16 },
    /// 2NNN: push the PC and jump to the subroutine at NNN.
    Call { nnn: u16 },
    /// 3XKK: skip the next instruction if VX == KK.
    SeXkk { x: u8, kk: u8 },
    /// 4XKK: skip the next instruction if VX != KK.
    SneXkk { x: u8, kk: u8 },
    /// 5XY0: skip the next instruction if VX == VY.
    SeXy { x: u8, y: u8 },
    /// 6XKK: VX = KK.
    LdXkk { x: u8, kk: u8 },
    /// 7XKK: VX = VX + KK, wrapping, no flag.
    AddXkk { x: u8, kk: u8 },
    /// 8XY0: VX = VY.
    LdXy { x: u8, y: u8 },
    /// 8XY1: VX = VX | VY.
    OrXy { x: u8, y: u8 },
    /// 8XY2: VX = VX & VY.
    AndXy { x: u8, y: u8 },
    /// 8XY3: VX = VX ^ VY.
    XorXy { x: u8, y: u8 },
    /// 8XY4: VX = VX + VY wrapping; VF = 1 iff the unsigned sum overflowed
    /// eight bits.
    AddXy { x: u8, y: u8 },
    /// 8XY5: VX = VX - VY wrapping; VF = 1 iff VX >= VY (no borrow).
    SubXy { x: u8, y: u8 },
    /// 8X06: VF = bit 0 of VX (the bit shifted out); VX = VX >> 1.
    ShrX { x: u8 },
    /// 8XY7: VX = VY - VX wrapping; VF = 1 iff VY >= VX (no borrow).
    SubnXy { x: u8, y: u8 },
    /// 8X0E: VF = top bit of VX; VX = VX << 1, wrapping.
    ShlX { x: u8 },
    /// 9XY0: skip the next instruction if VX != VY.
    SneXy { x: u8, y: u8 },
    /// ANNN: I = NNN.
    LdINnn { nnn: u16 },
    /// BNNN: jump to V0 + NNN, with no implicit advance.
    Jp2 { nnn: u16 },
    /// CXKK: VX = (uniform random byte) & KK.
    RndXkk { x: u8, kk: u8 },
    /// DXYN: draw the N-byte sprite at Memory[I..I+N] at (VX, VY) by XOR;
    /// VF = 1 iff a previously-set pixel was erased.
    Drw { x: u8, y: u8, n: u8 },
    /// EX9E: skip the next instruction if key VX is down.
    SkpX { x: u8 },
    /// EXA1: skip the next instruction if key VX is not down.
    SknpX { x: u8 },
    /// FX07: VX = delay timer.
    LdXDt { x: u8 },
    /// FX0A: wait for a key press: once one is pending, store the key in VX
    /// and advance; otherwise leave the PC unchanged so the same instruction
    /// runs again next cycle.
    LdKey { x: u8 },
    /// FX15: delay timer = VX.
    LdDtX { x: u8 },
    /// FX18: sound timer = VX; audio starts if VX > 0 and stops otherwise.
    LdStX { x: u8 },
    /// FX1E: I = I + VX, wrapping, with no flag side effect.
    AddIX { x: u8 },
    /// FX29: I = the address of the font sprite for digit VX & 0xF (five
    /// bytes per digit, from address 0).
    LdXSprite { x: u8 },
    /// FX33: the decimal digits of VX (hundreds, tens, ones) go to
    /// Memory[I], Memory[I+1], Memory[I+2].
    LdBcd { x: u8 },
    /// FX55: block copy of V0..=VX to Memory starting at I.
    LdIX { x: u8 },
    /// FX65: block load of V0..=VX from Memory starting at I.
    LdXI { x: u8 },
}

/// Every operand field is in range: register indices below 16, addresses
/// below 0x1000, a sprite height between 1 and 15. Decoding only ever
/// produces such instructions.
pub open spec fn instr_wf(instr: Instruction) -> bool {
    match instr {
        Instruction::Cls => true,
        Instruction::Ret => true,
        Instruction::Jp { nnn } => nnn < 0x1000,
        Instruction::Call { nnn } => nnn < 0x1000,
        Instruction::SeXkk { x, kk } => x < 16,
        Instruction::SneXkk { x, kk } => x < 16,
        Instruction::SeXy { x, y } => x < 16 && y < 16,
        Instruction::LdXkk { x, kk } => x < 16,
        Instruction::AddXkk { x, kk } => x < 16,
        Instruction::LdXy { x, y } => x < 16 && y < 16,
        Instruction::OrXy { x, y } => x < 16 && y < 16,
        Instruction::AndXy { x, y } => x < 16 && y < 16,
        Instruction::XorXy { x, y } => x < 16 && y < 16,
        Instruction::AddXy { x, y } => x < 16 && y < 16,
        Instruction::SubXy { x, y } => x < 16 && y < 16,
        Instruction::ShrX { x } => x < 16,
        Instruction::SubnXy { x, y } => x < 16 && y < 16,
        Instruction::ShlX { x } => x < 16,
        Instruction::SneXy { x, y } => x < 16 && y < 16,
        Instruction::LdINnn { nnn } => nnn < 0x1000,
        Instruction::Jp2 { nnn } => nnn < 0x1000,
        Instruction::RndXkk { x, kk } => x < 16,
        Instruction::Drw { x, y, n } => x < 16 && y < 16 && 1 <= n <= 15,
        Instruction::SkpX { x } => x < 16,
        Instruction::SknpX { x } => x < 16,
        Instruction::LdXDt { x } => x < 16,
        Instruction::LdKey { x } => x < 16,
        Instruction::LdDtX { x } => x < 16,
        Instruction::LdStX { x } => x < 16,
        Instruction::AddIX { x } => x < 16,
        Instruction::LdXSprite { x } => x < 16,
        Instruction::LdBcd { x } => x < 16,
        Instruction::LdIX { x } => x < 16,
        Instruction::LdXI { x } => x < 16,
    }
}

/// The instruction encoded by opcode `op`, if any. The high nibble selects
/// one of 16 coarse ranges; where several instructions share a range, the
/// low nibble or the low byte disambiguates, and a failing secondary check
/// falls through to the next candidate. An opcode matching no combination
/// decodes to nothing, which is fatal to the engine.
pub open spec fn decode_spec(op: u16) -> Option<Instruction> {
    let high = nibble_of(op, 4);
    let x = nibble_of(op, 3) as u8;
    let y = nibble_of(op, 2) as u8;
    let n = nibble_of(op, 1) as u8;
    let kk = (op & 0xFF) as u8;
    let nnn = op & 0xFFF;
    if op == 0x00E0 {
        Some(Instruction::Cls)
    } else if op == 0x00EE {
        Some(Instruction::Ret)
    } else if high == 0x1 {
        Some(Instruction::Jp { nnn })
    } else if high == 0x2 {
        Some(Instruction::Call { nnn })
    } else if high == 0x3 {
        Some(Instruction::SeXkk { x, kk })
    } else if high == 0x4 {
        Some(Instruction::SneXkk { x, kk })
    } else if high == 0x5 && n == 0x0 {
        Some(Instruction::SeXy { x, y })
    } else if high == 0x6 {
        Some(Instruction::LdXkk { x, kk })
    } else if high == 0x7 {
        Some(Instruction::AddXkk { x, kk })
    } else if high == 0x8 && n == 0x0 {
        Some(Instruction::LdXy { x, y })
    } else if high == 0x8 && n == 0x1 {
        Some(Instruction::OrXy { x, y })
    } else if high == 0x8 && n == 0x2 {
        Some(Instruction::AndXy { x, y })
    } else if high == 0x8 && n == 0x3 {
        Some(Instruction::XorXy { x, y })
    } else if high == 0x8 && n == 0x4 {
        Some(Instruction::AddXy { x, y })
    } else if high == 0x8 && n == 0x5 {
        Some(Instruction::SubXy { x, y })
    } else if high == 0x8 && kk == 0x06 {
        Some(Instruction::ShrX { x })
    } else if high == 0x8 && n == 0x7 {
        Some(Instruction::SubnXy { x, y })
    } else if high == 0x8 && kk == 0x0E {
        Some(Instruction::ShlX { x })
    } else if high == 0x9 && n == 0x0 {
        Some(Instruction::SneXy { x, y })
    } else if high == 0xA {
        Some(Instruction::LdINnn { nnn })
    } else if high == 0xB {
        Some(Instruction::Jp2 { nnn })
    } else if high == 0xC {
        Some(Instruction::RndXkk { x, kk })
    } else if high == 0xD && n != 0x0 {
        Some(Instruction::Drw { x, y, n })
    } else if high == 0xE && kk == 0x9E {
        Some(Instruction::SkpX { x })
    } else if high == 0xE && kk == 0xA1 {
        Some(Instruction::SknpX { x })
    } else if high == 0xF && kk == 0x07 {
        Some(Instruction::LdXDt { x })
    } else if high == 0xF && kk == 0x0A {
        Some(Instruction::LdKey { x })
    } else if high == 0xF && kk == 0x15 {
        Some(Instruction::LdDtX { x })
    } else if high == 0xF && kk == 0x18 {
        Some(Instruction::LdStX { x })
    } else if high == 0xF && kk == 0x1E {
        Some(Instruction::AddIX { x })
    } else if high == 0xF && kk == 0x29 {
        Some(Instruction::LdXSprite { x })
    } else if high == 0xF && kk == 0x33 {
        Some(Instruction::LdBcd { x })
    } else if high == 0xF && kk == 0x55 {
        Some(Instruction::LdIX { x })
    } else if high == 0xF && kk == 0x65 {
        Some(Instruction::LdXI { x })
    } else {
        None
    }
}

/// Decode an opcode into the instruction it encodes, or nothing where it
/// encodes none.
pub fn decode(opcode: Opcode) -> (r: Option<Instruction>)
    ensures
        r == decode_spec(opcode.code),
        r matches Some(instr) ==> instr_wf(instr),
{
    let high = opcode.get_index_from_nibble(4) as u8;
    let x = opcode.get_index_from_nibble(3) as u8;
    let y = opcode.get_index_from_nibble(2) as u8;
    let n = opcode.get_index_from_nibble(1) as u8;
    let kk = opcode.get_low_byte();
    let nnn = opcode.get_address();
    if opcode.code == 0x00E0 {
        Some(Instruction::Cls)
    } else if opcode.code == 0x00EE {
        Some(Instruction::Ret)
    } else if high == 0x1 {
        Some(Instruction::Jp { nnn })
    } else if high == 0x2 {
        Some(Instruction::Call { nnn })
    } else if high == 0x3 {
        Some(Instruction::SeXkk { x, kk })
    } else if high == 0x4 {
        Some(Instruction::SneXkk { x, kk })
    } else if high == 0x5 && n == 0x0 {
        Some(Instruction::SeXy { x, y })
    } else if high == 0x6 {
        Some(Instruction::LdXkk { x, kk })
    } else if high == 0x7 {
        Some(Instruction::AddXkk { x, kk })
    } else if high == 0x8 && n == 0x0 {
        Some(Instruction::LdXy { x, y })
    } else if high == 0x8 && n == 0x1 {
        Some(Instruction::OrXy { x, y })
    } else if high == 0x8 && n == 0x2 {
        Some(Instruction::AndXy { x, y })
    } else if high == 0x8 && n == 0x3 {
        Some(Instruction::XorXy { x, y })
    } else if high == 0x8 && n == 0x4 {
        Some(Instruction::AddXy { x, y })
    } else if high == 0x8 && n == 0x5 {
        Some(Instruction::SubXy { x, y })
    } else if high == 0x8 && kk == 0x06 {
        Some(Instruction::ShrX { x })
    } else if high == 0x8 && n == 0x7 {
        Some(Instruction::SubnXy { x, y })
    } else if high == 0x8 && kk == 0x0E {
        Some(Instruction::ShlX { x })
    } else if high == 0x9 && n == 0x0 {
        Some(Instruction::SneXy { x, y })
    } else if high == 0xA {
        Some(Instruction::LdINnn { nnn })
    } else if high == 0xB {
        Some(Instruction::Jp2 { nnn })
    } else if high == 0xC {
        Some(Instruction::RndXkk { x, kk })
    } else if high == 0xD && n != 0x0 {
        Some(Instruction::Drw { x, y, n })
    } else if high == 0xE && kk == 0x9E {
        Some(Instruction::SkpX { x })
    } else if high == 0xE && kk == 0xA1 {
        Some(Instruction::SknpX { x })
    } else if high == 0xF && kk == 0x07 {
        Some(Instruction::LdXDt { x })
    } else if high == 0xF && kk == 0x0A {
        Some(Instruction::LdKey { x })
    } else if high == 0xF && kk == 0x15 {
        Some(Instruction::LdDtX { x })
    } else if high == 0xF && kk == 0x18 {
        Some(Instruction::LdStX { x })
    } else if high == 0xF && kk == 0x1E {
        Some(Instruction::AddIX { x })
    } else if high == 0xF && kk == 0x29 {
        Some(Instruction::LdXSprite { x })
    } else if high == 0xF && kk == 0x33 {
        Some(Instruction::LdBcd { x })
    } else if high == 0xF && kk == 0x55 {
        Some(Instruction::LdIX { x })
    } else if high == 0xF && kk == 0x65 {
        Some(Instruction::LdXI { x })
    } else {
        None
    }
}

} // verus!
