//! The decoded instruction set: one variant per CHIP-8 mnemonic, each
//! carrying exactly the operand fields that opcode needs.

use vstd::prelude::*;

verus! {

/// A decoded CHIP-8 instruction.
///
/// Register operands are indices `0..16` into the register file `V0..VF`,
/// addresses are 12-bit (`< 0x1000`), immediates are full bytes, and sprite
/// heights are nibbles (`< 16`); [`Instruction::wf`] states those ranges.
#[derive(Clone, Copy, Debug, PartialEq, Eq, Structural)]
pub enum Instruction {
    /// `00E0`: clear the display.
    Cls,
    /// `00EE`: return from a subroutine.
    Ret,
    /// `0nnn`: legacy native-routine call; a no-op on modern interpreters.
    Sys(u16),
    /// `1nnn`: jump to address.
    Jump(u16),
    /// `2nnn`: call the subroutine at an address.
    Call(u16),
    /// `3xkk`: skip next instruction if `Vx == kk`.
    SkipEqImm(u8, u8),
    /// `4xkk`: skip next instruction if `Vx != kk`.
    SkipNeImm(u8, u8),
    /// `5xy0`: skip next instruction if `Vx == Vy`.
    SkipEqReg(u8, u8),
    /// `9xy0`: skip next instruction if `Vx != Vy`.
    SkipNeReg(u8, u8),
    /// `6xkk`: `Vx = kk`.
    LoadImm(u8, u8),
    /// `7xkk`: `Vx = Vx + kk` with 8-bit wraparound; the carry flag is untouched.
    AddImm(u8, u8),
    /// `8xy0`: `Vx = Vy`.
    LoadReg(u8, u8),
    /// `8xy1`: `Vx = Vx | Vy`.
    Or(u8, u8),
    /// `8xy2`: `Vx = Vx & Vy`.
    And(u8, u8),
    /// `8xy3`: `Vx = Vx ^ Vy`.
    Xor(u8, u8),
    /// `8xy4`: `Vx = Vx + Vy` truncated to 8 bits; `VF` = carry.
    AddReg(u8, u8),
    /// `8xy5`: `Vx = Vx - Vy` mod 256; `VF` = 1 when no borrow (`Vx >= Vy`).
    Sub(u8, u8),
    /// `8xy7`: `Vx = Vy - Vx` mod 256; `VF` = 1 when no borrow (`Vy >= Vx`).
    SubN(u8, u8),
    /// `8xy6`: in-place right shift of `Vx`; `VF` = the bit shifted out.
    ShiftRight(u8),
    /// `8xyE`: in-place left shift of `Vx`; `VF` = the bit shifted out.
    ShiftLeft(u8),
    /// `Annn`: `I = nnn`.
    LoadIndex(u16),
    /// `Bnnn`: jump to `nnn + V0`.
    JumpOffset(u16),
    /// `Cxkk`: `Vx` = a fresh random byte ANDed with `kk`.
    Random(u8, u8),
    /// `Dxyn`: XOR-plot the `n`-row sprite at memory `I` at `(Vx, Vy)`;
    /// `VF` = collision.
    Draw(u8, u8, u8),
    /// `Ex9E`: skip next instruction if the key indexed by `Vx` is pressed.
    SkipKey(u8),
    /// `ExA1`: skip next instruction if the key indexed by `Vx` is not pressed.
    SkipNoKey(u8),
    /// `Fx07`: `Vx` = delay timer.
    LoadDelay(u8),
    /// `Fx0A`: wait for a key press, then store the key index in `Vx`.
    WaitKey(u8),
    /// `Fx15`: delay timer = `Vx`.
    SetDelay(u8),
    /// `Fx18`: sound timer = `Vx`.
    SetSound(u8),
    /// `Fx1E`: `I = I + Vx` with 16-bit wraparound; the carry flag is untouched.
    AddIndex(u8),
    /// `Fx29`: `I` = address of the 5-byte font sprite for the low nibble of `Vx`.
    SpriteAddr(u8),
    /// `Fx33`: store the three decimal digits of `Vx` at `I`, `I+1`, `I+2`.
    BcdStore(u8),
    /// `Fx55`: copy `V0..=Vx` into memory starting at `I`.
    RegDump(u8),
    /// `Fx65`: load `V0..=Vx` from memory starting at `I`.
    RegLoad(u8),
}

impl Instruction {
    /// Operand ranges that every decoded instruction satisfies: register
    /// indices below 16, addresses below 0x1000, sprite heights below 16.
    pub open spec fn wf(self) -> bool {
        match self {
            Instruction::Cls => true,
            Instruction::Ret => true,
            Instruction::Sys(a) => a < 0x1000,
            Instruction::Jump(a) => a < 0x1000,
            Instruction::Call(a) => a < 0x1000,
            Instruction::SkipEqImm(x, _) => x < 16,
            Instruction::SkipNeImm(x, _) => x < 16,
            Instruction::SkipEqReg(x, y) => x < 16 && y < 16,
            Instruction::SkipNeReg(x, y) => x < 16 && y < 16,
            Instruction::LoadImm(x, _) => x < 16,
            Instruction::AddImm(x, _) => x < 16,
            Instruction::LoadReg(x, y) => x < 16 && y < 16,
            Instruction::Or(x, y) => x < 16 && y < 16,
            Instruction::And(x, y) => x < 16 && y < 16,
            Instruction::Xor(x, y) => x < 16 && y < 16,
            Instruction::AddReg(x, y) => x < 16 && y < 16,
            Instruction::Sub(x, y) => x < 16 && y < 16,
            Instruction::SubN(x, y) => x < 16 && y < 16,
            Instruction::ShiftRight(x) => x < 16,
            Instruction::ShiftLeft(x) => x < 16,
            Instruction::LoadIndex(a) => a < 0x1000,
            Instruction::JumpOffset(a) => a < 0x1000,
            Instruction::Random(x, _) => x < 16,
            Instruction::Draw(x, y, n) => x < 16 && y < 16 && n < 16,
            Instruction::SkipKey(x) => x < 16,
            Instruction::SkipNoKey(x) => x < 16,
            Instruction::LoadDelay(x) => x < 16,
            Instruction::WaitKey(x) => x < 16,
            Instruction::SetDelay(x) => x < 16,
            Instruction::SetSound(x) => x < 16,
            Instruction::AddIndex(x) => x < 16,
            Instruction::SpriteAddr(x) => x < 16,
            Instruction::BcdStore(x) => x < 16,
            Instruction::RegDump(x) => x < 16,
            Instruction::RegLoad(x) => x < 16,
        }
    }
}

} // verus!
