use chip8::decode::decode;
use chip8::error::DecodeError;
use chip8::instr::Instruction;

#[test]
fn decodes_family_zero() {
    assert_eq!(decode(0x00E0), Ok(Instruction::Cls));
    assert_eq!(decode(0x00EE), Ok(Instruction::Ret));
    // Any other 0nnn word is the legacy native-routine call, not unknown.
    assert_eq!(decode(0x0123), Ok(Instruction::Sys(0x123)));
    assert_eq!(decode(0x0000), Ok(Instruction::Sys(0x000)));
}

#[test]
fn decodes_jumps_and_calls() {
    assert_eq!(decode(0x1ABC), Ok(Instruction::Jump(0xABC)));
    assert_eq!(decode(0x2ABC), Ok(Instruction::Call(0xABC)));
    assert_eq!(decode(0xA123), Ok(Instruction::LoadIndex(0x123)));
    assert_eq!(decode(0xB123), Ok(Instruction::JumpOffset(0x123)));
}

#[test]
fn decodes_skips() {
    assert_eq!(decode(0x3A42), Ok(Instruction::SkipEqImm(0xA, 0x42)));
    assert_eq!(decode(0x4A42), Ok(Instruction::SkipNeImm(0xA, 0x42)));
    assert_eq!(decode(0x5AB0), Ok(Instruction::SkipEqReg(0xA, 0xB)));
    assert_eq!(decode(0x9AB0), Ok(Instruction::SkipNeReg(0xA, 0xB)));
}

#[test]
fn decodes_loads_and_immediates() {
    assert_eq!(decode(0x6C77), Ok(Instruction::LoadImm(0xC, 0x77)));
    assert_eq!(decode(0x7C77), Ok(Instruction::AddImm(0xC, 0x77)));
}

#[test]
fn decodes_alu_family() {
    assert_eq!(decode(0x8AB0), Ok(Instruction::LoadReg(0xA, 0xB)));
    assert_eq!(decode(0x8AB1), Ok(Instruction::Or(0xA, 0xB)));
    assert_eq!(decode(0x8AB2), Ok(Instruction::And(0xA, 0xB)));
    assert_eq!(decode(0x8AB3), Ok(Instruction::Xor(0xA, 0xB)));
    assert_eq!(decode(0x8AB4), Ok(Instruction::AddReg(0xA, 0xB)));
    assert_eq!(decode(0x8AB5), Ok(Instruction::Sub(0xA, 0xB)));
    assert_eq!(decode(0x8AB6), Ok(Instruction::ShiftRight(0xA)));
    assert_eq!(decode(0x8AB7), Ok(Instruction::SubN(0xA, 0xB)));
    assert_eq!(decode(0x8ABE), Ok(Instruction::ShiftLeft(0xA)));
}

#[test]
fn decodes_misc_families() {
    assert_eq!(decode(0xC342), Ok(Instruction::Random(0x3, 0x42)));
    assert_eq!(decode(0xD125), Ok(Instruction::Draw(0x1, 0x2, 0x5)));
    assert_eq!(decode(0xEA9E), Ok(Instruction::SkipKey(0xA)));
    assert_eq!(decode(0xEAA1), Ok(Instruction::SkipNoKey(0xA)));
    assert_eq!(decode(0xF107), Ok(Instruction::LoadDelay(0x1)));
    assert_eq!(decode(0xF10A), Ok(Instruction::WaitKey(0x1)));
    assert_eq!(decode(0xF115), Ok(Instruction::SetDelay(0x1)));
    assert_eq!(decode(0xF118), Ok(Instruction::SetSound(0x1)));
    assert_eq!(decode(0xF11E), Ok(Instruction::AddIndex(0x1)));
    assert_eq!(decode(0xF129), Ok(Instruction::SpriteAddr(0x1)));
    assert_eq!(decode(0xF133), Ok(Instruction::BcdStore(0x1)));
    assert_eq!(decode(0xF155), Ok(Instruction::RegDump(0x1)));
    assert_eq!(decode(0xF165), Ok(Instruction::RegLoad(0x1)));
}

#[test]
fn rejects_unknown_trailing_values() {
    assert_eq!(decode(0x8AB8), Err(DecodeError::UnknownOpcode(0x8AB8)));
    assert_eq!(decode(0x8ABF), Err(DecodeError::UnknownOpcode(0x8ABF)));
    assert_eq!(decode(0xE100), Err(DecodeError::UnknownOpcode(0xE100)));
    assert_eq!(decode(0xEAFF), Err(DecodeError::UnknownOpcode(0xEAFF)));
    assert_eq!(decode(0xF100), Err(DecodeError::UnknownOpcode(0xF100)));
    assert_eq!(decode(0xF164), Err(DecodeError::UnknownOpcode(0xF164)));
    assert_eq!(decode(0xFFFF), Err(DecodeError::UnknownOpcode(0xFFFF)));
}

#[test]
fn single_member_families_ignore_trailing_nibble() {
    // Families 0x5 and 0x9 hold one instruction each; the trailing nibble
    // is not inspected.
    assert_eq!(decode(0x5AB7), Ok(Instruction::SkipEqReg(0xA, 0xB)));
    assert_eq!(decode(0x9AB7), Ok(Instruction::SkipNeReg(0xA, 0xB)));
}

#[test]
fn decode_is_deterministic_over_all_words() {
    for w in 0..=0xFFFFu16 {
        assert_eq!(decode(w), decode(w));
    }
}
