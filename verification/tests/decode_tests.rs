use chip8_engine::decode::decode;
use chip8_engine::decode::DecodeError;
use chip8_engine::decode::Instruction;

#[test]
fn decodes_clear_and_ret() {
    assert_eq!(decode(0x00E0), Ok(Instruction::ClearScreen));
    assert_eq!(decode(0x00EE), Ok(Instruction::Ret));
}

#[test]
fn decodes_jumps_and_calls() {
    assert_eq!(decode(0x1ABC), Ok(Instruction::Jump(0xABC)));
    assert_eq!(decode(0x2123), Ok(Instruction::Call(0x123)));
    assert_eq!(decode(0xB987), Ok(Instruction::JumpOffset(0x987)));
}

#[test]
fn decodes_skips() {
    assert_eq!(decode(0x3A42), Ok(Instruction::SkipEqVal(0xA, 0x42)));
    assert_eq!(decode(0x4A42), Ok(Instruction::SkipNeqVal(0xA, 0x42)));
    assert_eq!(decode(0x5AB0), Ok(Instruction::SkipEqReg(0xA, 0xB)));
    assert_eq!(decode(0x9AB0), Ok(Instruction::SkipNeqReg(0xA, 0xB)));
    assert_eq!(decode(0xEA9E), Ok(Instruction::SkipKey(0xA)));
    assert_eq!(decode(0xEAA1), Ok(Instruction::SkipNoKey(0xA)));
}

#[test]
fn decodes_alu_group() {
    assert_eq!(decode(0x8120), Ok(Instruction::CopyReg(1, 2)));
    assert_eq!(decode(0x8121), Ok(Instruction::OrReg(1, 2)));
    assert_eq!(decode(0x8122), Ok(Instruction::AndReg(1, 2)));
    assert_eq!(decode(0x8123), Ok(Instruction::XorReg(1, 2)));
    assert_eq!(decode(0x8124), Ok(Instruction::AddReg(1, 2)));
    assert_eq!(decode(0x8125), Ok(Instruction::SubReg(1, 2)));
    assert_eq!(decode(0x8126), Ok(Instruction::ShrReg(1, 2)));
    assert_eq!(decode(0x8127), Ok(Instruction::SubRev(1, 2)));
    assert_eq!(decode(0x812E), Ok(Instruction::ShlReg(1, 2)));
}

#[test]
fn decodes_loads_and_draws() {
    assert_eq!(decode(0x6A42), Ok(Instruction::SetVal(0xA, 0x42)));
    assert_eq!(decode(0x7A42), Ok(Instruction::AddVal(0xA, 0x42)));
    assert_eq!(decode(0xA123), Ok(Instruction::SetIndex(0x123)));
    assert_eq!(decode(0xC342), Ok(Instruction::Rand(3, 0x42)));
    assert_eq!(decode(0xD125), Ok(Instruction::Draw(1, 2, 5)));
}

#[test]
fn decodes_f_group() {
    assert_eq!(decode(0xF307), Ok(Instruction::GetDelay(3)));
    assert_eq!(decode(0xF30A), Ok(Instruction::WaitKey(3)));
    assert_eq!(decode(0xF315), Ok(Instruction::SetDelay(3)));
    assert_eq!(decode(0xF318), Ok(Instruction::SetSound(3)));
    assert_eq!(decode(0xF31E), Ok(Instruction::AddIndex(3)));
    assert_eq!(decode(0xF329), Ok(Instruction::FontChar(3)));
    assert_eq!(decode(0xF333), Ok(Instruction::Bcd(3)));
    assert_eq!(decode(0xF355), Ok(Instruction::StoreRegs(3)));
    assert_eq!(decode(0xF365), Ok(Instruction::LoadRegs(3)));
}

#[test]
fn rejects_unknown_opcodes() {
    assert_eq!(decode(0x0000), Err(DecodeError { opcode: 0x0000 }));
    assert_eq!(decode(0x0123), Err(DecodeError { opcode: 0x0123 }));
    assert_eq!(decode(0x5AB1), Err(DecodeError { opcode: 0x5AB1 }));
    assert_eq!(decode(0x9AB5), Err(DecodeError { opcode: 0x9AB5 }));
    assert_eq!(decode(0x8128), Err(DecodeError { opcode: 0x8128 }));
    assert_eq!(decode(0xE000), Err(DecodeError { opcode: 0xE000 }));
    assert_eq!(decode(0xF330), Err(DecodeError { opcode: 0xF330 }));
    assert_eq!(decode(0xFFFF), Err(DecodeError { opcode: 0xFFFF }));
}
