//! The instruction set: one variant per instruction family, and the decoder
//! that turns a fetched 16-bit word into an instruction.

use vstd::prelude::*;

verus! {

/// A decoded instruction. `x` and `y` name registers, `address` is a 12-bit
/// memory address, `value` an 8-bit immediate and `rows` a sprite height.
#[derive(Clone, Copy, Debug, PartialEq, Eq, Structural)]
pub enum Instruction {
    /// `00E0`: turn every pixel off.
    ClearScreen,
    /// `00EE`: return from a subroutine.
    Return,
    /// `1NNN`: continue at `address`.
    Jump { address: u16 },
    /// `2NNN`: call the subroutine at `address`.
    Call { address: u16 },
    /// `3XNN`: skip the next instruction if `VX == value`.
    SkipIfEqual { x: u8, value: u8 },
    /// `4XNN`: skip the next instruction if `VX != value`.
    SkipIfNotEqual { x: u8, value: u8 },
    /// `5XY0`: skip the next instruction if `VX == VY`.
    SkipIfRegistersEqual { x: u8, y: u8 },
    /// `6XNN`: `VX := value`.
    Load { x: u8, value: u8 },
    /// `7XNN`: `VX := VX + value`, wrapping, flag untouched.
    AddImmediate { x: u8, value: u8 },
    /// `8XY0`: `VX := VY`.
    Copy { x: u8, y: u8 },
    /// `8XY1`: `VX := VX | VY`.
    Or { x: u8, y: u8 },
    /// `8XY2`: `VX := VX & VY`.
    And { x: u8, y: u8 },
    /// `8XY3`: `VX := VX ^ VY`.
    Xor { x: u8, y: u8 },
    /// `8XY4`: `VX := VX + VY`, wrapping; `VF` is the carry.
    Add { x: u8, y: u8 },
    /// `8XY5`: `VX := VX - VY`, wrapping; `VF` is 1 unless a borrow occurred.
    Subtract { x: u8, y: u8 },
    /// `8XY6`: `VX := VY >> 1`; `VF` is the bit shifted out.
    ShiftRight { x: u8, y: u8 },
    /// `8XY7`: `VX := VY - VX`, wrapping; `VF` is 1 unless a borrow occurred.
    SubtractReversed { x: u8, y: u8 },
    /// `8XYE`: `VX := VY << 1`; `VF` is the bit shifted out.
    ShiftLeft { x: u8, y: u8 },
    /// `9XY0`: skip the next instruction if `VX != VY`.
    SkipIfRegistersNotEqual { x: u8, y: u8 },
    /// `ANNN`: `I := address`.
    LoadIndex { address: u16 },
    /// `BNNN`: continue at `address + V0`.
    JumpWithOffset { address: u16 },
    /// `CXNN`: `VX := random byte & mask`.
    Random { x: u8, mask: u8 },
    /// `DXYN`: draw the `rows`-byte sprite at `I` at position `(VX, VY)`.
    Draw { x: u8, y: u8, rows: u8 },
    /// `EX9E`: skip the next instruction if key `VX` is pressed.
    SkipIfKeyPressed { x: u8 },
    /// `EXA1`: skip the next instruction if key `VX` is not pressed.
    SkipIfKeyNotPressed { x: u8 },
    /// `FX07`: `VX := delay timer`.
    ReadDelayTimer { x: u8 },
    /// `FX0A`: wait until a key is pressed and store its index in `VX`.
    WaitForKey { x: u8 },
    /// `FX15`: `delay timer := VX`.
    SetDelayTimer { x: u8 },
    /// `FX18`: `sound timer := VX`.
    SetSoundTimer { x: u8 },
    /// `FX1E`: `I := I + VX`; `VF` tells whether the sum left the address range.
    AddToIndex { x: u8 },
    /// `FX29`: `I :=` address of the font glyph for `VX`.
    LoadGlyph { x: u8 },
    /// `FX33`: store the three decimal digits of `VX` at `I`, `I+1`, `I+2`.
    StoreDecimal { x: u8 },
    /// `FX55`: store `V0..=VX` to memory starting at `I`.
    StoreRegisters { x: u8 },
    /// `FX65`: load `V0..=VX` from memory starting at `I`.
    LoadRegisters { x: u8 },
    /// Any other word: executes as a no-op.
    Unknown { opcode: u16 },
}

/// The four 4-bit fields of an instruction word, most significant first.
pub open spec fn nibbles(opcode: u16) -> (u16, u16, u16, u16) {
    (opcode / 0x1000, opcode / 0x100 % 0x10, opcode / 0x10 % 0x10, opcode % 0x10)
}

/// The dispatch table: which instruction each 16-bit word denotes.
pub open spec fn decode_spec(opcode: u16) -> Instruction {
    let x = (opcode / 0x100 % 0x10) as u8;
    let y = (opcode / 0x10 % 0x10) as u8;
    let value = (opcode % 0x100) as u8;
    let address = opcode % 0x1000;
    match nibbles(opcode) {
        (0x0, 0x0, 0xE, 0x0) => Instruction::ClearScreen,
        (0x0, 0x0, 0xE, 0xE) => Instruction::Return,
        (0x1, _, _, _) => Instruction::Jump { address },
        (0x2, _, _, _) => Instruction::Call { address },
        (0x3, _, _, _) => Instruction::SkipIfEqual { x, value },
        (0x4, _, _, _) => Instruction::SkipIfNotEqual { x, value },
        (0x5, _, _, 0x0) => Instruction::SkipIfRegistersEqual { x, y },
        (0x6, _, _, _) => Instruction::Load { x, value },
        (0x7, _, _, _) => Instruction::AddImmediate { x, value },
        (0x8, _, _, 0x0) => Instruction::Copy { x, y },
        (0x8, _, _, 0x1) => Instruction::Or { x, y },
        (0x8, _, _, 0x2) => Instruction::And { x, y },
        (0x8, _, _, 0x3) => Instruction::Xor { x, y },
        (0x8, _, _, 0x4) => Instruction::Add { x, y },
        (0x8, _, _, 0x5) => Instruction::Subtract { x, y },
        (0x8, _, _, 0x6) => Instruction::ShiftRight { x, y },
        (0x8, _, _, 0x7) => Instruction::SubtractReversed { x, y },
        (0x8, _, _, 0xE) => Instruction::ShiftLeft { x, y },
        (0x9, _, _, 0x0) => Instruction::SkipIfRegistersNotEqual { x, y },
        (0xA, _, _, _) => Instruction::LoadIndex { address },
        (0xB, _, _, _) => Instruction::JumpWithOffset { address },
        (0xC, _, _, _) => Instruction::Random { x, mask: value },
        (0xD, _, _, _) => Instruction::Draw { x, y, rows: (opcode % 0x10) as u8 },
        (0xE, _, 0x9, 0xE) => Instruction::SkipIfKeyPressed { x },
        (0xE, _, 0xA, 0x1) => Instruction::SkipIfKeyNotPressed { x },
        (0xF, _, 0x0, 0x7) => Instruction::ReadDelayTimer { x },
        (0xF, _, 0x0, 0xA) => Instruction::WaitForKey { x },
        (0xF, _, 0x1, 0x5) => Instruction::SetDelayTimer { x },
        (0xF, _, 0x1, 0x8) => Instruction::SetSoundTimer { x },
        (0xF, _, 0x1, 0xE) => Instruction::AddToIndex { x },
        (0xF, _, 0x2, 0x9) => Instruction::LoadGlyph { x },
        (0xF, _, 0x3, 0x3) => Instruction::StoreDecimal { x },
        (0xF, _, 0x5, 0x5) => Instruction::StoreRegisters { x },
        (0xF, _, 0x6, 0x5) => Instruction::LoadRegisters { x },
        _ => Instruction::Unknown { opcode },
    }
}

impl Instruction {
    /// Every operand is in range: registers below 16, addresses below 4096,
    /// sprite heights below 16.
    pub open spec fn wf(self) -> bool {
        match self {
            Instruction::Jump { address }
            | Instruction::Call { address }
            | Instruction::LoadIndex { address }
            | Instruction::JumpWithOffset { address } => address < 0x1000,
            Instruction::SkipIfEqual { x, .. }
            | Instruction::SkipIfNotEqual { x, .. }
            | Instruction::Load { x, .. }
            | Instruction::AddImmediate { x, .. }
            | Instruction::Random { x, .. }
            | Instruction::SkipIfKeyPressed { x }
            | Instruction::SkipIfKeyNotPressed { x }
            | Instruction::ReadDelayTimer { x }
            | Instruction::WaitForKey { x }
            | Instruction::SetDelayTimer { x }
            | Instruction::SetSoundTimer { x }
            | Instruction::AddToIndex { x }
            | Instruction::LoadGlyph { x }
            | Instruction::StoreDecimal { x }
            | Instruction::StoreRegisters { x }
            | Instruction::LoadRegisters { x } => x < 16,
            Instruction::SkipIfRegistersEqual { x, y }
            | Instruction::Copy { x, y }
            | Instruction::Or { x, y }
            | Instruction::And { x, y }
            | Instruction::Xor { x, y }
            | Instruction::Add { x, y }
            | Instruction::Subtract { x, y }
            | Instruction::ShiftRight { x, y }
            | Instruction::SubtractReversed { x, y }
            | Instruction::ShiftLeft { x, y }
            | Instruction::SkipIfRegistersNotEqual { x, y } => x < 16 && y < 16,
            Instruction::Draw { x, y, rows } => x < 16 && y < 16 && rows < 16,
            Instruction::ClearScreen | Instruction::Return | Instruction::Unknown { .. } => true,
        }
    }
}

/// Decodes one instruction word.
pub fn decode(opcode: u16) -> (instruction: Instruction)
    ensures
        instruction == decode_spec(opcode),
        instruction.wf(),
{
    let x = (opcode / 0x100 % 0x10) as u8;
    let y = (opcode / 0x10 % 0x10) as u8;
    let value = (opcode % 0x100) as u8;
    let address = opcode % 0x1000;
    match (opcode / 0x1000, opcode / 0x100 % 0x10, opcode / 0x10 % 0x10, opcode % 0x10) {
        (0x0, 0x0, 0xE, 0x0) => Instruction::ClearScreen,
        (0x0, 0x0, 0xE, 0xE) => Instruction::Return,
        (0x1, _, _, _) => Instruction::Jump { address },
        (0x2, _, _, _) => Instruction::Call { address },
        (0x3, _, _, _) => Instruction::SkipIfEqual { x, value },
        (0x4, _, _, _) => Instruction::SkipIfNotEqual { x, value },
        (0x5, _, _, 0x0) => Instruction::SkipIfRegistersEqual { x, y },
        (0x6, _, _, _) => Instruction::Load { x, value },
        (0x7, _, _, _) => Instruction::AddImmediate { x, value },
        (0x8, _, _, 0x0) => Instruction::Copy { x, y },
        (0x8, _, _, 0x1) => Instruction::Or { x, y },
        (0x8, _, _, 0x2) => Instruction::And { x, y },
        (0x8, _, _, 0x3) => Instruction::Xor { x, y },
        (0x8, _, _, 0x4) => Instruction::Add { x, y },
        (0x8, _, _, 0x5) => Instruction::Subtract { x, y },
        (0x8, _, _, 0x6) => Instruction::ShiftRight { x, y },
        (0x8, _, _, 0x7) => Instruction::SubtractReversed { x, y },
        (0x8, _, _, 0xE) => Instruction::ShiftLeft { x, y },
        (0x9, _, _, 0x0) => Instruction::SkipIfRegistersNotEqual { x, y },
        (0xA, _, _, _) => Instruction::LoadIndex { address },
        (0xB, _, _, _) => Instruction::JumpWithOffset { address },
        (0xC, _, _, _) => Instruction::Random { x, mask: value },
        (0xD, _, _, _) => Instruction::Draw { x, y, rows: (opcode % 0x10) as u8 },
        (0xE, _, 0x9, 0xE) => Instruction::SkipIfKeyPressed { x },
        (0xE, _, 0xA, 0x1) => Instruction::SkipIfKeyNotPressed { x },
        (0xF, _, 0x0, 0x7) => Instruction::ReadDelayTimer { x },
        (0xF, _, 0x0, 0xA) => Instruction::WaitForKey { x },
        (0xF, _, 0x1, 0x5) => Instruction::SetDelayTimer { x },
        (0xF, _, 0x1, 0x8) => Instruction::SetSoundTimer { x },
        (0xF, _, 0x1, 0xE) => Instruction::AddToIndex { x },
        (0xF, _, 0x2, 0x9) => Instruction::LoadGlyph { x },
        (0xF, _, 0x3, 0x3) => Instruction::StoreDecimal { x },
        (0xF, _, 0x5, 0x5) => Instruction::StoreRegisters { x },
        (0xF, _, 0x6, 0x5) => Instruction::LoadRegisters { x },
        _ => Instruction::Unknown { opcode },
    }
}

} // verus!
