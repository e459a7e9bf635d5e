//! Instruction words: their fixed fields and the decoder.
//!
//! Every instruction is one big-endian 16-bit word. The leading nibble
//! selects a group; the groups `0`, `8`, `E` and `F` hold several operations
//! each and are told apart by a second key taken from the low bits.

use vstd::prelude::*;

verus! {

/// The leading nibble of an instruction word, which selects its group.
pub open spec fn op_group(opcode: u16) -> u16 {
    opcode >> 12
}

/// The 12-bit address field `nnn`.
pub open spec fn op_nnn(opcode: u16) -> u16 {
    opcode & 0x0FFF
}

/// The 8-bit immediate field `kk`.
pub open spec fn op_kk(opcode: u16) -> u8 {
    (opcode & 0x00FF) as u8
}

/// The 4-bit immediate field `n`.
pub open spec fn op_n(opcode: u16) -> u8 {
    (opcode & 0x000F) as u8
}

/// The register selector `x`.
pub open spec fn op_x(opcode: u16) -> u8 {
    ((opcode & 0x0F00) >> 8) as u8
}

/// The register selector `y`.
pub open spec fn op_y(opcode: u16) -> u8 {
    ((opcode & 0x00F0) >> 4) as u8
}

/// One decoded operation together with its operands.
///
/// `x` and `y` name registers `V0`..`VF`, `addr` is a 12-bit address, `byte`
/// an 8-bit immediate and `rows` a 4-bit sprite height.
#[derive(Clone, Copy, Debug, PartialEq, Eq, Structural)]
pub enum Instruction {
    /// `00E0`: blank the framebuffer.
    ClearScreen,
    /// `00EE`: return from a subroutine.
    Return,
    /// `1nnn`: jump to `addr`.
    Jump { addr: u16 },
    /// `2nnn`: call the subroutine at `addr`.
    Call { addr: u16 },
    /// `3xkk`: skip the next instruction if `Vx == byte`.
    SkipIfEqual { x: u8, byte: u8 },
    /// `4xkk`: skip the next instruction if `Vx != byte`.
    SkipIfNotEqual { x: u8, byte: u8 },
    /// `5xy_`: skip the next instruction if `Vx == Vy`.
    SkipIfRegistersEqual { x: u8, y: u8 },
    /// `6xkk`: `Vx = byte`.
    Load { x: u8, byte: u8 },
    /// `7xkk`: `Vx = Vx + byte`, wrapping, flag untouched.
    AddByte { x: u8, byte: u8 },
    /// `8xy0`: `Vx = Vy`.
    Move { x: u8, y: u8 },
    /// `8xy1`: `Vx = Vx | Vy`.
    Or { x: u8, y: u8 },
    /// `8xy2`: `Vx = Vx & Vy`.
    And { x: u8, y: u8 },
    /// `8xy3`: `Vx = Vx ^ Vy`.
    Xor { x: u8, y: u8 },
    /// `8xy4`: `Vx = Vx + Vy`, `VF` = carry.
    Add { x: u8, y: u8 },
    /// `8xy5`: `Vx = Vx - Vy`, `VF` = no borrow.
    Sub { x: u8, y: u8 },
    /// `8xy6`: shift right by one, `VF` = the bit shifted out.
    ShiftRight { x: u8, y: u8 },
    /// `8xy7`: `Vx = Vy - Vx`, `VF` = no borrow.
    SubReversed { x: u8, y: u8 },
    /// `8xyE`: shift left by one, `VF` = the bit shifted out.
    ShiftLeft { x: u8, y: u8 },
    /// `9xy_`: skip the next instruction if `Vx != Vy`.
    SkipIfRegistersDiffer { x: u8, y: u8 },
    /// `Annn`: `I = addr`.
    LoadIndex { addr: u16 },
    /// `Bnnn`: jump to `addr + V0`.
    JumpOffset { addr: u16 },
    /// `Cxkk`: `Vx` = a random byte masked with `byte`.
    Random { x: u8, byte: u8 },
    /// `Dxyn`: draw the `rows`-row sprite at `I` at position (`Vx`, `Vy`).
    Draw { x: u8, y: u8, rows: u8 },
    /// `Ex9E`: skip the next instruction if the key named by `Vx` is down.
    SkipIfKey { x: u8 },
    /// `ExA1`: skip the next instruction if the key named by `Vx` is up.
    SkipIfNotKey { x: u8 },
    /// `Fx07`: `Vx` = delay timer.
    ReadDelay { x: u8 },
    /// `Fx0A`: suspend until a key is down, then `Vx` = that key.
    WaitKey { x: u8 },
    /// `Fx15`: delay timer = `Vx`.
    SetDelay { x: u8 },
    /// `Fx18`: sound timer = `Vx`.
    SetSound { x: u8 },
    /// `Fx1E`: `I = I + Vx`.
    AddIndex { x: u8 },
    /// `Fx29`: `I` = address of the font glyph for `Vx`.
    FontAddress { x: u8 },
    /// `Fx33`: store the three decimal digits of `Vx` at `I`, `I+1`, `I+2`.
    StoreBcd { x: u8 },
    /// `Fx55`: store `V0`..`Vx` at `I` onward.
    StoreRegisters { x: u8 },
    /// `Fx65`: load `V0`..`Vx` from `I` onward.
    LoadRegisters { x: u8 },
}

impl Instruction {
    /// Every operand lies in the range that its field allows: register
    /// selectors and sprite heights in four bits, addresses in twelve.
    pub open spec fn wf(self) -> bool {
        match self {
            Instruction::ClearScreen => true,
            Instruction::Return => true,
            Instruction::Jump { addr } => addr < 4096,
            Instruction::Call { addr } => addr < 4096,
            Instruction::SkipIfEqual { x, byte } => x < 16,
            Instruction::SkipIfNotEqual { x, byte } => x < 16,
            Instruction::SkipIfRegistersEqual { x, y } => x < 16 && y < 16,
            Instruction::Load { x, byte } => x < 16,
            Instruction::AddByte { x, byte } => x < 16,
            Instruction::Move { x, y } => x < 16 && y < 16,
            Instruction::Or { x, y } => x < 16 && y < 16,
            Instruction::And { x, y } => x < 16 && y < 16,
            Instruction::Xor { x, y } => x < 16 && y < 16,
            Instruction::Add { x, y } => x < 16 && y < 16,
            Instruction::Sub { x, y } => x < 16 && y < 16,
            Instruction::ShiftRight { x, y } => x < 16 && y < 16,
            Instruction::SubReversed { x, y } => x < 16 && y < 16,
            Instruction::ShiftLeft { x, y } => x < 16 && y < 16,
            Instruction::SkipIfRegistersDiffer { x, y } => x < 16 && y < 16,
            Instruction::LoadIndex { addr } => addr < 4096,
            Instruction::JumpOffset { addr } => addr < 4096,
            Instruction::Random { x, byte } => x < 16,
            Instruction::Draw { x, y, rows } => x < 16 && y < 16 && rows < 16,
            Instruction::SkipIfKey { x } => x < 16,
            Instruction::SkipIfNotKey { x } => x < 16,
            Instruction::ReadDelay { x } => x < 16,
            Instruction::WaitKey { x } => x < 16,
            Instruction::SetDelay { x } => x < 16,
            Instruction::SetSound { x } => x < 16,
            Instruction::AddIndex { x } => x < 16,
            Instruction::FontAddress { x } => x < 16,
            Instruction::StoreBcd { x } => x < 16,
            Instruction::StoreRegisters { x } => x < 16,
            Instruction::LoadRegisters { x } => x < 16,
        }
    }
}

/// The operation that an instruction word stands for, or `None` where the
/// word matches no defined combination.
///
/// Groups `1`..`7`, `9` and `A`..`D` are decided by the leading nibble alone.
/// Group `0` is keyed on `nnn`, group `8` on `n`, groups `E` and `F` on `kk`.
pub open spec fn decode_spec(opcode: u16) -> Option<Instruction> {
    let addr = op_nnn(opcode);
    let byte = op_kk(opcode);
    let rows = op_n(opcode);
    let x = op_x(opcode);
    let y = op_y(opcode);
    match op_group(opcode) {
        0x0 => match addr {
            0x0E0 => Some(Instruction::ClearScreen),
            0x0EE => Some(Instruction::Return),
            _ => None,
        },
        0x1 => Some(Instruction::Jump { addr }),
        0x2 => Some(Instruction::Call { addr }),
        0x3 => Some(Instruction::SkipIfEqual { x, byte }),
        0x4 => Some(Instruction::SkipIfNotEqual { x, byte }),
        0x5 => Some(Instruction::SkipIfRegistersEqual { x, y }),
        0x6 => Some(Instruction::Load { x, byte }),
        0x7 => Some(Instruction::AddByte { x, byte }),
        0x8 => match rows {
            0x0 => Some(Instruction::Move { x, y }),
            0x1 => Some(Instruction::Or { x, y }),
            0x2 => Some(Instruction::And { x, y }),
            0x3 => Some(Instruction::Xor { x, y }),
            0x4 => Some(Instruction::Add { x, y }),
            0x5 => Some(Instruction::Sub { x, y }),
            0x6 => Some(Instruction::ShiftRight { x, y }),
            0x7 => Some(Instruction::SubReversed { x, y }),
            0xE => Some(Instruction::ShiftLeft { x, y }),
            _ => None,
        },
        0x9 => Some(Instruction::SkipIfRegistersDiffer { x, y }),
        0xA => Some(Instruction::LoadIndex { addr }),
        0xB => Some(Instruction::JumpOffset { addr }),
        0xC => Some(Instruction::Random { x, byte }),
        0xD => Some(Instruction::Draw { x, y, rows }),
        0xE => match byte {
            0x9E => Some(Instruction::SkipIfKey { x }),
            0xA1 => Some(Instruction::SkipIfNotKey { x }),
            _ => None,
        },
        0xF => match byte {
            0x07 => Some(Instruction::ReadDelay { x }),
            0x0A => Some(Instruction::WaitKey { x }),
            0x15 => Some(Instruction::SetDelay { x }),
            0x18 => Some(Instruction::SetSound { x }),
            0x1E => Some(Instruction::AddIndex { x }),
            0x29 => Some(Instruction::FontAddress { x }),
            0x33 => Some(Instruction::StoreBcd { x }),
            0x55 => Some(Instruction::StoreRegisters { x }),
            0x65 => Some(Instruction::LoadRegisters { x }),
            _ => None,
        },
        _ => None,
    }
}

/// Every field of an instruction word lies in the range its width allows.
pub proof fn lemma_field_ranges(opcode: u16)
    ensures
        op_group(opcode) < 16,
        op_nnn(opcode) < 4096,
        op_n(opcode) < 16,
        op_x(opcode) < 16,
        op_y(opcode) < 16,
{
    assert(opcode >> 12 < 16) by (bit_vector);
    assert(opcode & 0x0FFF < 4096) by (bit_vector);
    assert(opcode & 0x000F < 16) by (bit_vector);
    assert((opcode & 0x0F00) >> 8 < 16) by (bit_vector);
    assert((opcode & 0x00F0) >> 4 < 16) by (bit_vector);
}

/// Whatever a word decodes to has its operands in range.
pub proof fn lemma_decode_wf(opcode: u16)
    ensures
        decode_spec(opcode) matches Some(ins) ==> ins.wf(),
{
    lemma_field_ranges(opcode);
}

/// Decodes one instruction word.
pub fn decode(opcode: u16) -> (r: Option<Instruction>)
    ensures
        r == decode_spec(opcode),
        r matches Some(ins) ==> ins.wf(),
{
    proof {
        lemma_decode_wf(opcode);
    }
    let addr: u16 = opcode & 0x0FFF;
    let byte: u8 = (opcode & 0x00FF) as u8;
    let rows: u8 = (opcode & 0x000F) as u8;
    let x: u8 = ((opcode & 0x0F00) >> 8) as u8;
    let y: u8 = ((opcode & 0x00F0) >> 4) as u8;
    match opcode >> 12 {
        0x0 => match addr {
            0x0E0 => Some(Instruction::ClearScreen),
            0x0EE => Some(Instruction::Return),
            _ => None,
        },
        0x1 => Some(Instruction::Jump { addr }),
        0x2 => Some(Instruction::Call { addr }),
        0x3 => Some(Instruction::SkipIfEqual { x, byte }),
        0x4 => Some(Instruction::SkipIfNotEqual { x, byte }),
        0x5 => Some(Instruction::SkipIfRegistersEqual { x, y }),
        0x6 => Some(Instruction::Load { x, byte }),
        0x7 => Some(Instruction::AddByte { x, byte }),
        0x8 => match rows {
            0x0 => Some(Instruction::Move { x, y }),
            0x1 => Some(Instruction::Or { x, y }),
            0x2 => Some(Instruction::And { x, y }),
            0x3 => Some(Instruction::Xor { x, y }),
            0x4 => Some(Instruction::Add { x, y }),
            0x5 => Some(Instruction::Sub { x, y }),
            0x6 => Some(Instruction::ShiftRight { x, y }),
            0x7 => Some(Instruction::SubReversed { x, y }),
            0xE => Some(Instruction::ShiftLeft { x, y }),
            _ => None,
        },
        0x9 => Some(Instruction::SkipIfRegistersDiffer { x, y }),
        0xA => Some(Instruction::LoadIndex { addr }),
        0xB => Some(Instruction::JumpOffset { addr }),
        0xC => Some(Instruction::Random { x, byte }),
        0xD => Some(Instruction::Draw { x, y, rows }),
        0xE => match byte {
            0x9E => Some(Instruction::SkipIfKey { x }),
            0xA1 => Some(Instruction::SkipIfNotKey { x }),
            _ => None,
        },
        0xF => match byte {
            0x07 => Some(Instruction::ReadDelay { x }),
            0x0A => Some(Instruction::WaitKey { x }),
            0x15 => Some(Instruction::SetDelay { x }),
            0x18 => Some(Instruction::SetSound { x }),
            0x1E => Some(Instruction::AddIndex { x }),
            0x29 => Some(Instruction::FontAddress { x }),
            0x33 => Some(Instruction::StoreBcd { x }),
            0x55 => Some(Instruction::StoreRegisters { x }),
            0x65 => Some(Instruction::LoadRegisters { x }),
            _ => None,
        },
        _ => None,
    }
}

/// The word with `group` in its leading nibble and `addr` below it.
pub open spec fn word_addr(group: u16, addr: u16) -> u16 {
    group << 12 | addr
}

/// The word with `group` in its leading nibble, `x` in the next and `byte`
/// in its low half.
pub open spec fn word_byte(group: u16, x: u8, byte: u8) -> u16 {
    group << 12 | (x as u16) << 8 | byte as u16
}

/// The word made of the four nibbles `group`, `x`, `y` and `n`.
pub open spec fn word_nibbles(group: u16, x: u8, y: u8, n: u8) -> u16 {
    group << 12 | (x as u16) << 8 | (y as u16) << 4 | n as u16
}

/// The instruction word that stands for `ins`, with a zero in the nibble
/// that the two register comparisons leave unused.
pub open spec fn encode_spec(ins: Instruction) -> u16 {
    match ins {
        Instruction::ClearScreen => 0x00E0,
        Instruction::Return => 0x00EE,
        Instruction::Jump { addr } => word_addr(0x1, addr),
        Instruction::Call { addr } => word_addr(0x2, addr),
        Instruction::SkipIfEqual { x, byte } => word_byte(0x3, x, byte),
        Instruction::SkipIfNotEqual { x, byte } => word_byte(0x4, x, byte),
        Instruction::SkipIfRegistersEqual { x, y } => word_nibbles(0x5, x, y, 0x0),
        Instruction::Load { x, byte } => word_byte(0x6, x, byte),
        Instruction::AddByte { x, byte } => word_byte(0x7, x, byte),
        Instruction::Move { x, y } => word_nibbles(0x8, x, y, 0x0),
        Instruction::Or { x, y } => word_nibbles(0x8, x, y, 0x1),
        Instruction::And { x, y } => word_nibbles(0x8, x, y, 0x2),
        Instruction::Xor { x, y } => word_nibbles(0x8, x, y, 0x3),
        Instruction::Add { x, y } => word_nibbles(0x8, x, y, 0x4),
        Instruction::Sub { x, y } => word_nibbles(0x8, x, y, 0x5),
        Instruction::ShiftRight { x, y } => word_nibbles(0x8, x, y, 0x6),
        Instruction::SubReversed { x, y } => word_nibbles(0x8, x, y, 0x7),
        Instruction::ShiftLeft { x, y } => word_nibbles(0x8, x, y, 0xE),
        Instruction::SkipIfRegistersDiffer { x, y } => word_nibbles(0x9, x, y, 0x0),
        Instruction::LoadIndex { addr } => word_addr(0xA, addr),
        Instruction::JumpOffset { addr } => word_addr(0xB, addr),
        Instruction::Random { x, byte } => word_byte(0xC, x, byte),
        Instruction::Draw { x, y, rows } => word_nibbles(0xD, x, y, rows),
        Instruction::SkipIfKey { x } => word_byte(0xE, x, 0x9E),
        Instruction::SkipIfNotKey { x } => word_byte(0xE, x, 0xA1),
        Instruction::ReadDelay { x } => word_byte(0xF, x, 0x07),
        Instruction::WaitKey { x } => word_byte(0xF, x, 0x0A),
        Instruction::SetDelay { x } => word_byte(0xF, x, 0x15),
        Instruction::SetSound { x } => word_byte(0xF, x, 0x18),
        Instruction::AddIndex { x } => word_byte(0xF, x, 0x1E),
        Instruction::FontAddress { x } => word_byte(0xF, x, 0x29),
        Instruction::StoreBcd { x } => word_byte(0xF, x, 0x33),
        Instruction::StoreRegisters { x } => word_byte(0xF, x, 0x55),
        Instruction::LoadRegisters { x } => word_byte(0xF, x, 0x65),
    }
}

proof fn lemma_word_addr(group: u16, addr: u16)
    requires
        group < 16,
        addr < 4096,
    ensures
        op_group(word_addr(group, addr)) == group,
        op_nnn(word_addr(group, addr)) == addr,
{
    assert((group << 12 | addr) >> 12 == group && (group << 12 | addr) & 0x0FFF == addr)
        by (bit_vector)
        requires
            group < 16,
            addr < 4096,
    ;
}

proof fn lemma_word_byte(group: u16, x: u8, byte: u8)
    requires
        group < 16,
        x < 16,
    ensures
        op_group(word_byte(group, x, byte)) == group,
        op_x(word_byte(group, x, byte)) == x,
        op_kk(word_byte(group, x, byte)) == byte,
{
    let w = word_byte(group, x, byte);
    assert(w >> 12 == group && (w & 0x0F00) >> 8 == x && w & 0x00FF == byte) by (bit_vector)
        requires
            w == group << 12 | (x as u16) << 8 | byte as u16,
            group < 16,
            x < 16,
    ;
}

proof fn lemma_word_nibbles(group: u16, x: u8, y: u8, n: u8)
    requires
        group < 16,
        x < 16,
        y < 16,
        n < 16,
    ensures
        op_group(word_nibbles(group, x, y, n)) == group,
        op_x(word_nibbles(group, x, y, n)) == x,
        op_y(word_nibbles(group, x, y, n)) == y,
        op_n(word_nibbles(group, x, y, n)) == n,
{
    let w = word_nibbles(group, x, y, n);
    assert(w >> 12 == group && (w & 0x0F00) >> 8 == x && (w & 0x00F0) >> 4 == y && w & 0x000F
        == n) by (bit_vector)
        requires
            w == group << 12 | (x as u16) << 8 | (y as u16) << 4 | n as u16,
            group < 16,
            x < 16,
            y < 16,
            n < 16,
    ;
}

/// Decoding inverts encoding: the word that stands for an instruction
/// decodes to that instruction.
pub proof fn law_decode_inverts_encode(ins: Instruction)
    requires
        ins.wf(),
    ensures
        decode_spec(encode_spec(ins)) == Some(ins),
{
    match ins {
        Instruction::ClearScreen => {
            assert(0x00E0u16 >> 12 == 0 && 0x00E0u16 & 0x0FFF == 0x0E0) by (bit_vector);
        },
        Instruction::Return => {
            assert(0x00EEu16 >> 12 == 0 && 0x00EEu16 & 0x0FFF == 0x0EE) by (bit_vector);
        },
        Instruction::Jump { addr } => lemma_word_addr(0x1, addr),
        Instruction::Call { addr } => lemma_word_addr(0x2, addr),
        Instruction::LoadIndex { addr } => lemma_word_addr(0xA, addr),
        Instruction::JumpOffset { addr } => lemma_word_addr(0xB, addr),
        Instruction::SkipIfEqual { x, byte } => lemma_word_byte(0x3, x, byte),
        Instruction::SkipIfNotEqual { x, byte } => lemma_word_byte(0x4, x, byte),
        Instruction::Load { x, byte } => lemma_word_byte(0x6, x, byte),
        Instruction::AddByte { x, byte } => lemma_word_byte(0x7, x, byte),
        Instruction::Random { x, byte } => lemma_word_byte(0xC, x, byte),
        Instruction::SkipIfRegistersEqual { x, y } => lemma_word_nibbles(0x5, x, y, 0x0),
        Instruction::SkipIfRegistersDiffer { x, y } => lemma_word_nibbles(0x9, x, y, 0x0),
        Instruction::Move { x, y } => lemma_word_nibbles(0x8, x, y, 0x0),
        Instruction::Or { x, y } => lemma_word_nibbles(0x8, x, y, 0x1),
        Instruction::And { x, y } => lemma_word_nibbles(0x8, x, y, 0x2),
        Instruction::Xor { x, y } => lemma_word_nibbles(0x8, x, y, 0x3),
        Instruction::Add { x, y } => lemma_word_nibbles(0x8, x, y, 0x4),
        Instruction::Sub { x, y } => lemma_word_nibbles(0x8, x, y, 0x5),
        Instruction::ShiftRight { x, y } => lemma_word_nibbles(0x8, x, y, 0x6),
        Instruction::SubReversed { x, y } => lemma_word_nibbles(0x8, x, y, 0x7),
        Instruction::ShiftLeft { x, y } => lemma_word_nibbles(0x8, x, y, 0xE),
        Instruction::Draw { x, y, rows } => lemma_word_nibbles(0xD, x, y, rows),
        Instruction::SkipIfKey { x } => lemma_word_byte(0xE, x, 0x9E),
        Instruction::SkipIfNotKey { x } => lemma_word_byte(0xE, x, 0xA1),
        Instruction::ReadDelay { x } => lemma_word_byte(0xF, x, 0x07),
        Instruction::WaitKey { x } => lemma_word_byte(0xF, x, 0x0A),
        Instruction::SetDelay { x } => lemma_word_byte(0xF, x, 0x15),
        Instruction::SetSound { x } => lemma_word_byte(0xF, x, 0x18),
        Instruction::AddIndex { x } => lemma_word_byte(0xF, x, 0x1E),
        Instruction::FontAddress { x } => lemma_word_byte(0xF, x, 0x29),
        Instruction::StoreBcd { x } => lemma_word_byte(0xF, x, 0x33),
        Instruction::StoreRegisters { x } => lemma_word_byte(0xF, x, 0x55),
        Instruction::LoadRegisters { x } => lemma_word_byte(0xF, x, 0x65),
    }
}

/// The instruction word that stands for `ins`.
pub fn encode(ins: Instruction) -> (opcode: u16)
    ensures
        opcode == encode_spec(ins),
{
    match ins {
        Instruction::ClearScreen => 0x00E0,
        Instruction::Return => 0x00EE,
        Instruction::Jump { addr } => pack_addr(0x1, addr),
        Instruction::Call { addr } => pack_addr(0x2, addr),
        Instruction::SkipIfEqual { x, byte } => pack_byte(0x3, x, byte),
        Instruction::SkipIfNotEqual { x, byte } => pack_byte(0x4, x, byte),
        Instruction::SkipIfRegistersEqual { x, y } => pack_nibbles(0x5, x, y, 0x0),
        Instruction::Load { x, byte } => pack_byte(0x6, x, byte),
        Instruction::AddByte { x, byte } => pack_byte(0x7, x, byte),
        Instruction::Move { x, y } => pack_nibbles(0x8, x, y, 0x0),
        Instruction::Or { x, y } => pack_nibbles(0x8, x, y, 0x1),
        Instruction::And { x, y } => pack_nibbles(0x8, x, y, 0x2),
        Instruction::Xor { x, y } => pack_nibbles(0x8, x, y, 0x3),
        Instruction::Add { x, y } => pack_nibbles(0x8, x, y, 0x4),
        Instruction::Sub { x, y } => pack_nibbles(0x8, x, y, 0x5),
        Instruction::ShiftRight { x, y } => pack_nibbles(0x8, x, y, 0x6),
        Instruction::SubReversed { x, y } => pack_nibbles(0x8, x, y, 0x7),
        Instruction::ShiftLeft { x, y } => pack_nibbles(0x8, x, y, 0xE),
        Instruction::SkipIfRegistersDiffer { x, y } => pack_nibbles(0x9, x, y, 0x0),
        Instruction::LoadIndex { addr } => pack_addr(0xA, addr),
        Instruction::JumpOffset { addr } => pack_addr(0xB, addr),
        Instruction::Random { x, byte } => pack_byte(0xC, x, byte),
        Instruction::Draw { x, y, rows } => pack_nibbles(0xD, x, y, rows),
        Instruction::SkipIfKey { x } => pack_byte(0xE, x, 0x9E),
        Instruction::SkipIfNotKey { x } => pack_byte(0xE, x, 0xA1),
        Instruction::ReadDelay { x } => pack_byte(0xF, x, 0x07),
        Instruction::WaitKey { x } => pack_byte(0xF, x, 0x0A),
        Instruction::SetDelay { x } => pack_byte(0xF, x, 0x15),
        Instruction::SetSound { x } => pack_byte(0xF, x, 0x18),
        Instruction::AddIndex { x } => pack_byte(0xF, x, 0x1E),
        Instruction::FontAddress { x } => pack_byte(0xF, x, 0x29),
        Instruction::StoreBcd { x } => pack_byte(0xF, x, 0x33),
        Instruction::StoreRegisters { x } => pack_byte(0xF, x, 0x55),
        Instruction::LoadRegisters { x } => pack_byte(0xF, x, 0x65),
    }
}

fn pack_addr(group: u16, addr: u16) -> (word: u16)
    requires
        group < 16,
    ensures
        word == word_addr(group, addr),
{
    group << 12 | addr
}

fn pack_byte(group: u16, x: u8, byte: u8) -> (word: u16)
    requires
        group < 16,
    ensures
        word == word_byte(group, x, byte),
{
    group << 12 | (x as u16) << 8 | byte as u16
}

fn pack_nibbles(group: u16, x: u8, y: u8, n: u8) -> (word: u16)
    requires
        group < 16,
    ensures
        word == word_nibbles(group, x, y, n),
{
    group << 12 | (x as u16) << 8 | (y as u16) << 4 | n as u16
}

} // verus!
