//! Decoding 16-bit opcodes into instructions.
//!
//! An opcode is split into four 4-bit nibbles (highest first) and matched
//! against the canonical CHIP-8 opcode table.  Decoding is a pure function;
//! opcodes that match no pattern of the table are reported as a
//! [`DecodeError`] and leave the machine unchanged.

use vstd::prelude::*;

verus! {

/// One decoded CHIP-8 instruction with its operands.
///
/// Register operands are always below 16 and address operands below 0x1000
/// when produced by [`decode`], since they come from opcode nibbles.
#[derive(Clone, Copy, Debug, PartialEq, Eq, Structural)]
pub enum Instruction {
    /// 00E0: turn every pixel off.
    ClearScreen,
    /// 00EE: pop the call stack into the program counter.
    Ret,
    /// 1NNN: jump to NNN.
    Jump(u16),
    /// 2NNN: push the program counter, then jump to NNN.
    Call(u16),
    /// 3XNN: skip the next instruction if VX == NN.
    SkipEqVal(u8, u8),
    /// 4XNN: skip the next instruction if VX != NN.
    SkipNeqVal(u8, u8),
    /// 5XY0: skip the next instruction if VX == VY.
    SkipEqReg(u8, u8),
    /// 6XNN: VX := NN.
    SetVal(u8, u8),
    /// 7XNN: VX := VX + NN with 8-bit wraparound; no flag effect.
    AddVal(u8, u8),
    /// 8XY0: VX := VY.
    CopyReg(u8, u8),
    /// 8XY1: VX := VX | VY.
    OrReg(u8, u8),
    /// 8XY2: VX := VX & VY.
    AndReg(u8, u8),
    /// 8XY3: VX := VX ^ VY.
    XorReg(u8, u8),
    /// 8XY4: VX := VX + VY; VF := 1 on 8-bit overflow, else 0.
    AddReg(u8, u8),
    /// 8XY5: VX := VX - VY wrapped; VF := 1 if no borrow (VX >= VY), else 0.
    SubReg(u8, u8),
    /// 8XY6: VX := VX >> 1; VF := the bit shifted out (the old LSB).
    ShrReg(u8, u8),
    /// 8XY7: VX := VY - VX wrapped; VF := 1 if no borrow (VY >= VX), else 0.
    SubRev(u8, u8),
    /// 8XYE: VX := VX << 1 wrapped; VF := the bit shifted out (the old MSB).
    ShlReg(u8, u8),
    /// 9XY0: skip the next instruction if VX != VY.
    SkipNeqReg(u8, u8),
    /// ANNN: I := NNN.
    SetIndex(u16),
    /// BNNN: jump to NNN + V0 (V0 zero-extended).
    JumpOffset(u16),
    /// CXNN: VX := (uniformly random byte) & NN.
    Rand(u8, u8),
    /// DXYN: XOR-draw the N-row sprite at address I to (VX, VY); VF := 1 if
    /// any lit pixel was turned off, else 0.
    Draw(u8, u8, u8),
    /// EX9E: skip the next instruction if the key VX (low nibble) is pressed.
    SkipKey(u8),
    /// EXA1: skip the next instruction if the key VX (low nibble) is not
    /// pressed.
    SkipNoKey(u8),
    /// FX07: VX := delay timer.
    GetDelay(u8),
    /// FX0A: if no key is pressed, rewind the program counter so the
    /// instruction re-executes next cycle; else VX := lowest pressed key.
    WaitKey(u8),
    /// FX15: delay timer := VX.
    SetDelay(u8),
    /// FX18: sound timer := VX.
    SetSound(u8),
    /// FX1E: I := I + VX with 16-bit wraparound; no flag effect.
    AddIndex(u8),
    /// FX29: I := font base address + 5 × (VX & 0xF).
    FontChar(u8),
    /// FX33: write the decimal digits of VX to memory at I, I+1, I+2.
    Bcd(u8),
    /// FX55: store V0..VX inclusive to memory starting at I.
    StoreRegs(u8),
    /// FX65: load V0..VX inclusive from memory starting at I.
    LoadRegs(u8),
}

/// An opcode that matches no pattern of the instruction table.
#[derive(Clone, Copy, Debug, PartialEq, Eq, Structural)]
pub struct DecodeError {
    pub opcode: u16,
}

/// The opcode table as a mathematical function.
pub open spec fn spec_decode(op: u16) -> Result<Instruction, DecodeError> {
    let n1 = op / 0x1000;
    let x = ((op / 0x100) % 16) as u8;
    let y = ((op / 16) % 16) as u8;
    let n4 = op % 16;
    let nnn = (op % 0x1000) as u16;
    let nn = (op % 0x100) as u8;
    if op == 0x00E0 {
        Ok(Instruction::ClearScreen)
    } else if op == 0x00EE {
        Ok(Instruction::Ret)
    } else if n1 == 0x1 {
        Ok(Instruction::Jump(nnn))
    } else if n1 == 0x2 {
        Ok(Instruction::Call(nnn))
    } else if n1 == 0x3 {
        Ok(Instruction::SkipEqVal(x, nn))
    } else if n1 == 0x4 {
        Ok(Instruction::SkipNeqVal(x, nn))
    } else if n1 == 0x5 && n4 == 0x0 {
        Ok(Instruction::SkipEqReg(x, y))
    } else if n1 == 0x6 {
        Ok(Instruction::SetVal(x, nn))
    } else if n1 == 0x7 {
        Ok(Instruction::AddVal(x, nn))
    } else if n1 == 0x8 && n4 == 0x0 {
        Ok(Instruction::CopyReg(x, y))
    } else if n1 == 0x8 && n4 == 0x1 {
        Ok(Instruction::OrReg(x, y))
    } else if n1 == 0x8 && n4 == 0x2 {
        Ok(Instruction::AndReg(x, y))
    } else if n1 == 0x8 && n4 == 0x3 {
        Ok(Instruction::XorReg(x, y))
    } else if n1 == 0x8 && n4 == 0x4 {
        Ok(Instruction::AddReg(x, y))
    } else if n1 == 0x8 && n4 == 0x5 {
        Ok(Instruction::SubReg(x, y))
    } else if n1 == 0x8 && n4 == 0x6 {
        Ok(Instruction::ShrReg(x, y))
    } else if n1 == 0x8 && n4 == 0x7 {
        Ok(Instruction::SubRev(x, y))
    } else if n1 == 0x8 && n4 == 0xE {
        Ok(Instruction::ShlReg(x, y))
    } else if n1 == 0x9 && n4 == 0x0 {
        Ok(Instruction::SkipNeqReg(x, y))
    } else if n1 == 0xA {
        Ok(Instruction::SetIndex(nnn))
    } else if n1 == 0xB {
        Ok(Instruction::JumpOffset(nnn))
    } else if n1 == 0xC {
        Ok(Instruction::Rand(x, nn))
    } else if n1 == 0xD {
        Ok(Instruction::Draw(x, y, (n4 as u8)))
    } else if n1 == 0xE && nn == 0x9E {
        Ok(Instruction::SkipKey(x))
    } else if n1 == 0xE && nn == 0xA1 {
        Ok(Instruction::SkipNoKey(x))
    } else if n1 == 0xF && nn == 0x07 {
        Ok(Instruction::GetDelay(x))
    } else if n1 == 0xF && nn == 0x0A {
        Ok(Instruction::WaitKey(x))
    } else if n1 == 0xF && nn == 0x15 {
        Ok(Instruction::SetDelay(x))
    } else if n1 == 0xF && nn == 0x18 {
        Ok(Instruction::SetSound(x))
    } else if n1 == 0xF && nn == 0x1E {
        Ok(Instruction::AddIndex(x))
    } else if n1 == 0xF && nn == 0x29 {
        Ok(Instruction::FontChar(x))
    } else if n1 == 0xF && nn == 0x33 {
        Ok(Instruction::Bcd(x))
    } else if n1 == 0xF && nn == 0x55 {
        Ok(Instruction::StoreRegs(x))
    } else if n1 == 0xF && nn == 0x65 {
        Ok(Instruction::LoadRegs(x))
    } else {
        Err(DecodeError { opcode: op })
    }
}

/// Split an opcode into nibbles and select the instruction per the canonical
/// opcode table; report opcodes outside the table instead of guessing.
pub fn decode(op: u16) -> (r: Result<Instruction, DecodeError>)
    ensures
        r == spec_decode(op),
{
    let n1 = op / 0x1000;
    let x = ((op / 0x100) % 16) as u8;
    let y = ((op / 16) % 16) as u8;
    let n4 = op % 16;
    let nnn = op % 0x1000;
    let nn = (op % 0x100) as u8;
    if op == 0x00E0 {
        Ok(Instruction::ClearScreen)
    } else if op == 0x00EE {
        Ok(Instruction::Ret)
    } else if n1 == 0x1 {
        Ok(Instruction::Jump(nnn))
    } else if n1 == 0x2 {
        Ok(Instruction::Call(nnn))
    } else if n1 == 0x3 {
        Ok(Instruction::SkipEqVal(x, nn))
    } else if n1 == 0x4 {
        Ok(Instruction::SkipNeqVal(x, nn))
    } else if n1 == 0x5 && n4 == 0x0 {
        Ok(Instruction::SkipEqReg(x, y))
    } else if n1 == 0x6 {
        Ok(Instruction::SetVal(x, nn))
    } else if n1 == 0x7 {
        Ok(Instruction::AddVal(x, nn))
    } else if n1 == 0x8 && n4 == 0x0 {
        Ok(Instruction::CopyReg(x, y))
    } else if n1 == 0x8 && n4 == 0x1 {
        Ok(Instruction::OrReg(x, y))
    } else if n1 == 0x8 && n4 == 0x2 {
        Ok(Instruction::AndReg(x, y))
    } else if n1 == 0x8 && n4 == 0x3 {
        Ok(Instruction::XorReg(x, y))
    } else if n1 == 0x8 && n4 == 0x4 {
        Ok(Instruction::AddReg(x, y))
    } else if n1 == 0x8 && n4 == 0x5 {
        Ok(Instruction::SubReg(x, y))
    } else if n1 == 0x8 && n4 == 0x6 {
        Ok(Instruction::ShrReg(x, y))
    } else if n1 == 0x8 && n4 == 0x7 {
        Ok(Instruction::SubRev(x, y))
    } else if n1 == 0x8 && n4 == 0xE {
        Ok(Instruction::ShlReg(x, y))
    } else if n1 == 0x9 && n4 == 0x0 {
        Ok(Instruction::SkipNeqReg(x, y))
    } else if n1 == 0xA {
        Ok(Instruction::SetIndex(nnn))
    } else if n1 == 0xB {
        Ok(Instruction::JumpOffset(nnn))
    } else if n1 == 0xC {
        Ok(Instruction::Rand(x, nn))
    } else if n1 == 0xD {
        Ok(Instruction::Draw(x, y, (n4 as u8)))
    } else if n1 == 0xE && nn == 0x9E {
        Ok(Instruction::SkipKey(x))
    } else if n1 == 0xE && nn == 0xA1 {
        Ok(Instruction::SkipNoKey(x))
    } else if n1 == 0xF && nn == 0x07 {
        Ok(Instruction::GetDelay(x))
    } else if n1 == 0xF && nn == 0x0A {
        Ok(Instruction::WaitKey(x))
    } else if n1 == 0xF && nn == 0x15 {
        Ok(Instruction::SetDelay(x))
    } else if n1 == 0xF && nn == 0x18 {
        Ok(Instruction::SetSound(x))
    } else if n1 == 0xF && nn == 0x1E {
        Ok(Instruction::AddIndex(x))
    } else if n1 == 0xF && nn == 0x29 {
        Ok(Instruction::FontChar(x))
    } else if n1 == 0xF && nn == 0x33 {
        Ok(Instruction::Bcd(x))
    } else if n1 == 0xF && nn == 0x55 {
        Ok(Instruction::StoreRegs(x))
    } else if n1 == 0xF && nn == 0x65 {
        Ok(Instruction::LoadRegs(x))
    } else {
        Err(DecodeError { opcode: op })
    }
}

/// Every register operand a decoded instruction carries is below 16, and
/// every address operand below 0x1000.
pub open spec fn operands_in_range(instr: Instruction) -> bool {
    match instr {
        Instruction::ClearScreen => true,
        Instruction::Ret => true,
        Instruction::Jump(nnn) => nnn < 0x1000,
        Instruction::Call(nnn) => nnn < 0x1000,
        Instruction::SkipEqVal(x, _) => x < 16,
        Instruction::SkipNeqVal(x, _) => x < 16,
        Instruction::SkipEqReg(x, y) => x < 16 && y < 16,
        Instruction::SetVal(x, _) => x < 16,
        Instruction::AddVal(x, _) => x < 16,
        Instruction::CopyReg(x, y) => x < 16 && y < 16,
        Instruction::OrReg(x, y) => x < 16 && y < 16,
        Instruction::AndReg(x, y) => x < 16 && y < 16,
        Instruction::XorReg(x, y) => x < 16 && y < 16,
        Instruction::AddReg(x, y) => x < 16 && y < 16,
        Instruction::SubReg(x, y) => x < 16 && y < 16,
        Instruction::ShrReg(x, y) => x < 16 && y < 16,
        Instruction::SubRev(x, y) => x < 16 && y < 16,
        Instruction::ShlReg(x, y) => x < 16 && y < 16,
        Instruction::SkipNeqReg(x, y) => x < 16 && y < 16,
        Instruction::SetIndex(nnn) => nnn < 0x1000,
        Instruction::JumpOffset(nnn) => nnn < 0x1000,
        Instruction::Rand(x, _) => x < 16,
        Instruction::Draw(x, y, n) => x < 16 && y < 16 && n < 16,
        Instruction::SkipKey(x) => x < 16,
        Instruction::SkipNoKey(x) => x < 16,
        Instruction::GetDelay(x) => x < 16,
        Instruction::WaitKey(x) => x < 16,
        Instruction::SetDelay(x) => x < 16,
        Instruction::SetSound(x) => x < 16,
        Instruction::AddIndex(x) => x < 16,
        Instruction::FontChar(x) => x < 16,
        Instruction::Bcd(x) => x < 16,
        Instruction::StoreRegs(x) => x < 16,
        Instruction::LoadRegs(x) => x < 16,
    }
}

/// Whatever `decode` accepts carries operands in range: register indices
/// below 16 and addresses below 0x1000.
pub proof fn lemma_decode_operands_in_range(op: u16)
    ensures
        spec_decode(op) matches Ok(instr) ==> operands_in_range(instr),
{
}

} // verus!
