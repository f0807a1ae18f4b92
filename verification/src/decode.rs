//! Pure decoding of a raw 16-bit opcode word into an [`Instruction`].

use vstd::prelude::*;

use crate::error::DecodeError;
use crate::instr::Instruction;

verus! {

/// The address field of an opcode word: its low 12 bits.
pub open spec fn addr_of(w: u16) -> u16 {
    w & 0x0FFF
}

/// The immediate byte field of an opcode word: its low 8 bits.
pub open spec fn byte_of(w: u16) -> u8 {
    (w & 0x00FF) as u8
}

/// The X register field of an opcode word: bits 11..8.
pub open spec fn regx_of(w: u16) -> u8 {
    ((w >> 8) & 0xF) as u8
}

/// The Y register field of an opcode word: bits 7..4.
pub open spec fn regy_of(w: u16) -> u8 {
    ((w >> 4) & 0xF) as u8
}

/// The nibble field of an opcode word: its low 4 bits.
pub open spec fn nibble_of(w: u16) -> u8 {
    (w & 0x000F) as u8
}

pub proof fn lemma_field_bounds(w: u16)
    ensures
        addr_of(w) < 0x1000,
        regx_of(w) < 16,
        regy_of(w) < 16,
        nibble_of(w) < 16,
{
    assert((w & 0x0FFF) < 0x1000) by (bit_vector);
    assert(((w >> 8) & 0xF) < 16) by (bit_vector);
    assert(((w >> 4) & 0xF) < 16) by (bit_vector);
    assert((w & 0x000F) < 16) by (bit_vector);
}

/// The meaning of every 16-bit opcode word: the instruction it encodes with
/// its operand fields, or `UnknownOpcode` for a word outside the documented
/// CHIP-8 set.
///
/// Family `0x0` treats every word other than `00E0`/`00EE` as a legacy
/// native-routine call carrying the raw address; families `0x8`, `0xE` and
/// `0xF` reject unrecognized trailing values.
pub open spec fn decode_spec(w: u16) -> Result<Instruction, DecodeError> {
    let t = w >> 12;
    let nnn = addr_of(w);
    let kk = byte_of(w);
    let x = regx_of(w);
    let y = regy_of(w);
    let n = nibble_of(w);
    if t == 0x0 {
        if nnn == 0x0E0 {
            Ok(Instruction::Cls)
        } else if nnn == 0x0EE {
            Ok(Instruction::Ret)
        } else {
            Ok(Instruction::Sys(nnn))
        }
    } else if t == 0x1 {
        Ok(Instruction::Jump(nnn))
    } else if t == 0x2 {
        Ok(Instruction::Call(nnn))
    } else if t == 0x3 {
        Ok(Instruction::SkipEqImm(x, kk))
    } else if t == 0x4 {
        Ok(Instruction::SkipNeImm(x, kk))
    } else if t == 0x5 {
        Ok(Instruction::SkipEqReg(x, y))
    } else if t == 0x6 {
        Ok(Instruction::LoadImm(x, kk))
    } else if t == 0x7 {
        Ok(Instruction::AddImm(x, kk))
    } else if t == 0x8 {
        if n == 0x0 {
            Ok(Instruction::LoadReg(x, y))
        } else if n == 0x1 {
            Ok(Instruction::Or(x, y))
        } else if n == 0x2 {
            Ok(Instruction::And(x, y))
        } else if n == 0x3 {
            Ok(Instruction::Xor(x, y))
        } else if n == 0x4 {
            Ok(Instruction::AddReg(x, y))
        } else if n == 0x5 {
            Ok(Instruction::Sub(x, y))
        } else if n == 0x6 {
            Ok(Instruction::ShiftRight(x))
        } else if n == 0x7 {
            Ok(Instruction::SubN(x, y))
        } else if n == 0xE {
            Ok(Instruction::ShiftLeft(x))
        } else {
            Err(DecodeError::UnknownOpcode(w))
        }
    } else if t == 0x9 {
        Ok(Instruction::SkipNeReg(x, y))
    } else if t == 0xA {
        Ok(Instruction::LoadIndex(nnn))
    } else if t == 0xB {
        Ok(Instruction::JumpOffset(nnn))
    } else if t == 0xC {
        Ok(Instruction::Random(x, kk))
    } else if t == 0xD {
        Ok(Instruction::Draw(x, y, n))
    } else if t == 0xE {
        if kk == 0x9E {
            Ok(Instruction::SkipKey(x))
        } else if kk == 0xA1 {
            Ok(Instruction::SkipNoKey(x))
        } else {
            Err(DecodeError::UnknownOpcode(w))
        }
    } else {
        if kk == 0x07 {
            Ok(Instruction::LoadDelay(x))
        } else if kk == 0x0A {
            Ok(Instruction::WaitKey(x))
        } else if kk == 0x15 {
            Ok(Instruction::SetDelay(x))
        } else if kk == 0x18 {
            Ok(Instruction::SetSound(x))
        } else if kk == 0x1E {
            Ok(Instruction::AddIndex(x))
        } else if kk == 0x29 {
            Ok(Instruction::SpriteAddr(x))
        } else if kk == 0x33 {
            Ok(Instruction::BcdStore(x))
        } else if kk == 0x55 {
            Ok(Instruction::RegDump(x))
        } else if kk == 0x65 {
            Ok(Instruction::RegLoad(x))
        } else {
            Err(DecodeError::UnknownOpcode(w))
        }
    }
}

/// Every successfully decoded instruction has well-formed operands.
pub proof fn lemma_decode_wf(w: u16)
    ensures
        decode_spec(w) matches Ok(i) ==> i.wf(),
{
    lemma_field_bounds(w);
}

/// Decoding is a pure function of the opcode word alone: two equal words
/// always decode to the same result, as witnessed by `decode`'s contract
/// equating its result with `decode_spec`.
pub proof fn lemma_decode_deterministic(w1: u16, w2: u16)
    requires
        w1 == w2,
    ensures
        decode_spec(w1) == decode_spec(w2),
{
}

/// Maps a raw 16-bit opcode word to its decoded instruction, or reports
/// `UnknownOpcode` exactly on the words outside the documented set.
pub fn decode(opcode: u16) -> (r: Result<Instruction, DecodeError>)
    ensures
        r == decode_spec(opcode),
        r matches Ok(i) ==> i.wf(),
{
    proof { lemma_decode_wf(opcode); }
    let nnn = addr(opcode);
    let kk = byte(opcode);
    let x = regx(opcode);
    let y = regy(opcode);
    let n = nibble(opcode);
    match opcode >> 12 {
        0x0 => match nnn {
            0x0E0 => Ok(Instruction::Cls),
            0x0EE => Ok(Instruction::Ret),
            _ => Ok(Instruction::Sys(nnn)),
        },
        0x1 => Ok(Instruction::Jump(nnn)),
        0x2 => Ok(Instruction::Call(nnn)),
        0x3 => Ok(Instruction::SkipEqImm(x, kk)),
        0x4 => Ok(Instruction::SkipNeImm(x, kk)),
        0x5 => Ok(Instruction::SkipEqReg(x, y)),
        0x6 => Ok(Instruction::LoadImm(x, kk)),
        0x7 => Ok(Instruction::AddImm(x, kk)),
        0x8 => match n {
            0x0 => Ok(Instruction::LoadReg(x, y)),
            0x1 => Ok(Instruction::Or(x, y)),
            0x2 => Ok(Instruction::And(x, y)),
            0x3 => Ok(Instruction::Xor(x, y)),
            0x4 => Ok(Instruction::AddReg(x, y)),
            0x5 => Ok(Instruction::Sub(x, y)),
            0x6 => Ok(Instruction::ShiftRight(x)),
            0x7 => Ok(Instruction::SubN(x, y)),
            0xE => Ok(Instruction::ShiftLeft(x)),
            _ => Err(DecodeError::UnknownOpcode(opcode)),
        },
        0x9 => Ok(Instruction::SkipNeReg(x, y)),
        0xA => Ok(Instruction::LoadIndex(nnn)),
        0xB => Ok(Instruction::JumpOffset(nnn)),
        0xC => Ok(Instruction::Random(x, kk)),
        0xD => Ok(Instruction::Draw(x, y, n)),
        0xE => match kk {
            0x9E => Ok(Instruction::SkipKey(x)),
            0xA1 => Ok(Instruction::SkipNoKey(x)),
            _ => Err(DecodeError::UnknownOpcode(opcode)),
        },
        _ => match kk {
            0x07 => Ok(Instruction::LoadDelay(x)),
            0x0A => Ok(Instruction::WaitKey(x)),
            0x15 => Ok(Instruction::SetDelay(x)),
            0x18 => Ok(Instruction::SetSound(x)),
            0x1E => Ok(Instruction::AddIndex(x)),
            0x29 => Ok(Instruction::SpriteAddr(x)),
            0x33 => Ok(Instruction::BcdStore(x)),
            0x55 => Ok(Instruction::RegDump(x)),
            0x65 => Ok(Instruction::RegLoad(x)),
            _ => Err(DecodeError::UnknownOpcode(opcode)),
        },
    }
}

/// Extracts the 12-bit address field.
pub fn addr(opcode: u16) -> (r: u16)
    ensures
        r == addr_of(opcode),
        r < 0x1000,
{
    proof { lemma_field_bounds(opcode); }
    opcode & 0x0FFF
}

/// Extracts the low immediate byte.
pub fn byte(opcode: u16) -> (r: u8)
    ensures
        r == byte_of(opcode),
{
    proof {
        assert((opcode & 0x00FF) < 0x100) by (bit_vector);
    }
    (opcode & 0x00FF) as u8
}

/// Extracts the X register index (bits 11..8).
pub fn regx(opcode: u16) -> (r: u8)
    ensures
        r == regx_of(opcode),
        r < 16,
{
    proof { lemma_field_bounds(opcode); }
    ((opcode >> 8) & 0xF) as u8
}

/// Extracts the Y register index (bits 7..4).
pub fn regy(opcode: u16) -> (r: u8)
    ensures
        r == regy_of(opcode),
        r < 16,
{
    proof { lemma_field_bounds(opcode); }
    ((opcode >> 4) & 0xF) as u8
}

/// Extracts the low 4-bit nibble field.
pub fn nibble(opcode: u16) -> (r: u8)
    ensures
        r == nibble_of(opcode),
        r < 16,
{
    proof { lemma_field_bounds(opcode); }
    (opcode & 0x000F) as u8
}

} // verus!
