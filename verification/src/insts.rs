//! The instruction set: the typed form of a 16-bit opcode, and the decoder.

use vstd::prelude::*;

verus! {

/// One decoded instruction. `x` and `y` name registers, `nnn` is a 12-bit
/// address, `kk` an 8-bit immediate and `n` a 4-bit count.
#[derive(Debug, Clone, Copy, PartialEq, Eq)]
pub enum Instruction {
    /// `00E0`: switch every pixel off.
    ClearScreen,
    /// `1nnn`: continue at `nnn`.
    Jump(u16),
    /// `6xkk`: `Vx <- kk`.
    SetRegister(u8, u8),
    /// `7xkk`: `Vx <- Vx + kk`, modulo 256.
    AddRegister(u8, u8),
    /// `Annn`: `I <- nnn`.
    SetI(u16),
    /// `Dxyn`: draw an `n`-row sprite read at `I`, at column `Vx`, row `Vy`.
    Draw(u16, u16, u16),
    /// `2nnn`: remember the program counter and continue at `nnn`.
    Call(u16),
    /// `00EE`: go back to the most recent call.
    Ret,
    /// `3xkk`: skip one instruction if `Vx == kk`.
    SkipNextInstruction(u16, u16),
    /// `4xkk`: skip one instruction if `Vx != kk`.
    NSkipNextInstruction(u16, u16),
    /// `5xy0`: skip one instruction if `Vx == Vy`.
    R2SkipNextInstruction(u16, u16),
    /// `9xy0`: skip one instruction if `Vx != Vy`.
    NR2SkipNextInstruction(u16, u16),
    /// `8xy0`: `Vx <- Vy`.
    STORE(u16, u16),
    /// `8xy1`: `Vx <- Vx | Vy`.
    OR(u16, u16),
    /// `8xy2`: `Vx <- Vx & Vy`.
    AND(u16, u16),
    /// `8xy3`: `Vx <- Vx ^ Vy`.
    XOR(u16, u16),
    /// `8xy4`: `Vx <- Vx + Vy` modulo 256, and `VF` receives the same value.
    ADD(u16, u16),
    /// `8xy5`: `VF <- Vx > Vy`, then `Vx <- Vx - Vy` modulo 256.
    SUB(u16, u16),
    /// `8xy6`: `VF <- Vx mod 2`, then `Vx <- Vx / 2`.
    SHR(u16),
    /// `8xy7`: `VF <- Vy > Vx`, then `Vx <- Vy - Vx` modulo 256.
    SUBN(u16, u16),
    /// `8xyE`: `VF <- Vx & 0x80`, then `Vx <- 2 * Vx` modulo 256.
    SHL(u16),
    /// `Fx07`: `Vx <- delay timer`.
    ReadDelay(u16),
    /// `Fx0A`: stay on this instruction until the key that `Vx` names is down.
    WaitKey(u16),
    /// `Fx15`: `delay timer <- Vx`.
    SetDelay(u16),
    /// `Fx18`: `sound timer <- Vx`.
    SetSound(u16),
    /// `Fx1E`: `I <- I + Vx`.
    AddI(u16),
    /// `Fx29`: `I <- 5 * Vx`, the address of the glyph of digit `Vx`.
    SpriteDigit(u16),
    /// `Fx33`: write the three decimal digits of `Vx` at `I`, `I + 1`, `I + 2`.
    StoreBCD(u16),
    /// `Fx55`: copy `V0..=Vx` into memory from `I` on.
    StoreRegisters(u16),
    /// `Fx65`: copy memory from `I` on into `V0..=Vx`.
    ReadRegisters(u16),
    /// `Ex9E`: skip one instruction if the key that `Vx` names is down.
    SkipIfPressed(u16),
    /// `ExA1`: skip one instruction if the key that `Vx` names is up.
    SkipIfNotPressed(u16),
    /// `Cxkk`: `Vx <- random byte & kk`.
    Random(u16, u16),
    /// `Bnnn`: continue at `nnn + V0`.
    Jump2(u16),
    /// Any other opcode, kept as it was fetched.
    ERROR(u16),
}

/// The leading hexadecimal digit of an opcode.
pub open spec fn family(raw: u16) -> int {
    raw as int / 0x1000
}

/// The second digit of an opcode: the register `x`.
pub open spec fn field_x(raw: u16) -> int {
    (raw as int / 0x100) % 0x10
}

/// The third digit of an opcode: the register `y`.
pub open spec fn field_y(raw: u16) -> int {
    (raw as int / 0x10) % 0x10
}

/// The last digit of an opcode: the count `n`.
pub open spec fn field_n(raw: u16) -> int {
    raw as int % 0x10
}

/// The low byte of an opcode: the immediate `kk`.
pub open spec fn field_kk(raw: u16) -> int {
    raw as int % 0x100
}

/// The low twelve bits of an opcode: the address `nnn`.
pub open spec fn field_nnn(raw: u16) -> int {
    raw as int % 0x1000
}

/// Whether `raw` matches a row of the instruction table.
pub open spec fn in_table(raw: u16) -> bool {
    let f = family(raw);
    let n = field_n(raw);
    let kk = field_kk(raw);
    ||| raw == 0x00E0
    ||| raw == 0x00EE
    ||| f == 0x1 || f == 0x2 || f == 0x3 || f == 0x4 || f == 0x6 || f == 0x7
    ||| f == 0xA || f == 0xB || f == 0xC || f == 0xD
    ||| (f == 0x5 || f == 0x9) && n == 0
    ||| f == 0x8 && (n <= 7 || n == 0xE)
    ||| f == 0xE && (kk == 0x9E || kk == 0xA1)
    ||| f == 0xF && (kk == 0x07 || kk == 0x0A || kk == 0x15 || kk == 0x18 || kk == 0x1E
        || kk == 0x29 || kk == 0x33 || kk == 0x55 || kk == 0x65)
}

/// The instruction that an opcode stands for.
pub open spec fn decode(raw: u16) -> Instruction {
    let f = family(raw);
    let x = field_x(raw) as u16;
    let y = field_y(raw) as u16;
    let n = field_n(raw) as u16;
    let kk = field_kk(raw) as u16;
    let nnn = field_nnn(raw) as u16;
    if raw == 0x00E0 {
        Instruction::ClearScreen
    } else if raw == 0x00EE {
        Instruction::Ret
    } else if f == 0x1 {
        Instruction::Jump(nnn)
    } else if f == 0x2 {
        Instruction::Call(nnn)
    } else if f == 0x3 {
        Instruction::SkipNextInstruction(x, kk)
    } else if f == 0x4 {
        Instruction::NSkipNextInstruction(x, kk)
    } else if f == 0x5 && n == 0 {
        Instruction::R2SkipNextInstruction(x, y)
    } else if f == 0x6 {
        Instruction::SetRegister(x as u8, kk as u8)
    } else if f == 0x7 {
        Instruction::AddRegister(x as u8, kk as u8)
    } else if f == 0x8 && n == 0x0 {
        Instruction::STORE(x, y)
    } else if f == 0x8 && n == 0x1 {
        Instruction::OR(x, y)
    } else if f == 0x8 && n == 0x2 {
        Instruction::AND(x, y)
    } else if f == 0x8 && n == 0x3 {
        Instruction::XOR(x, y)
    } else if f == 0x8 && n == 0x4 {
        Instruction::ADD(x, y)
    } else if f == 0x8 && n == 0x5 {
        Instruction::SUB(x, y)
    } else if f == 0x8 && n == 0x6 {
        Instruction::SHR(x)
    } else if f == 0x8 && n == 0x7 {
        Instruction::SUBN(x, y)
    } else if f == 0x8 && n == 0xE {
        Instruction::SHL(x)
    } else if f == 0x9 && n == 0 {
        Instruction::NR2SkipNextInstruction(x, y)
    } else if f == 0xA {
        Instruction::SetI(nnn)
    } else if f == 0xB {
        Instruction::Jump2(nnn)
    } else if f == 0xC {
        Instruction::Random(x, kk)
    } else if f == 0xD {
        Instruction::Draw(x, y, n)
    } else if f == 0xE && kk == 0x9E {
        Instruction::SkipIfPressed(x)
    } else if f == 0xE && kk == 0xA1 {
        Instruction::SkipIfNotPressed(x)
    } else if f == 0xF && kk == 0x07 {
        Instruction::ReadDelay(x)
    } else if f == 0xF && kk == 0x0A {
        Instruction::WaitKey(x)
    } else if f == 0xF && kk == 0x15 {
        Instruction::SetDelay(x)
    } else if f == 0xF && kk == 0x18 {
        Instruction::SetSound(x)
    } else if f == 0xF && kk == 0x1E {
        Instruction::AddI(x)
    } else if f == 0xF && kk == 0x29 {
        Instruction::SpriteDigit(x)
    } else if f == 0xF && kk == 0x33 {
        Instruction::StoreBCD(x)
    } else if f == 0xF && kk == 0x55 {
        Instruction::StoreRegisters(x)
    } else if f == 0xF && kk == 0x65 {
        Instruction::ReadRegisters(x)
    } else {
        Instruction::ERROR(raw)
    }
}

impl Instruction {
    /// Whether the operands are in the ranges that an opcode can encode:
    /// register numbers and counts below 16, immediates below 256, addresses
    /// below 4096.
    pub open spec fn well_formed(self) -> bool {
        match self {
            Instruction::ClearScreen | Instruction::Ret | Instruction::ERROR(_) => true,
            Instruction::Jump(nnn) | Instruction::Call(nnn) | Instruction::SetI(nnn)
            | Instruction::Jump2(nnn) => nnn < 0x1000,
            Instruction::SetRegister(x, _) | Instruction::AddRegister(x, _) => x < 16,
            Instruction::SkipNextInstruction(x, kk) | Instruction::NSkipNextInstruction(x, kk)
            | Instruction::Random(x, kk) => x < 16 && kk < 0x100,
            Instruction::R2SkipNextInstruction(x, y) | Instruction::NR2SkipNextInstruction(x, y)
            | Instruction::STORE(x, y) | Instruction::OR(x, y) | Instruction::AND(x, y)
            | Instruction::XOR(x, y) | Instruction::ADD(x, y) | Instruction::SUB(x, y)
            | Instruction::SUBN(x, y) => x < 16 && y < 16,
            Instruction::Draw(x, y, n) => x < 16 && y < 16 && n < 16,
            Instruction::SHR(x) | Instruction::SHL(x) | Instruction::ReadDelay(x)
            | Instruction::WaitKey(x) | Instruction::SetDelay(x) | Instruction::SetSound(x)
            | Instruction::AddI(x) | Instruction::SpriteDigit(x) | Instruction::StoreBCD(x)
            | Instruction::StoreRegisters(x) | Instruction::ReadRegisters(x)
            | Instruction::SkipIfPressed(x) | Instruction::SkipIfNotPressed(x) => x < 16,
        }
    }

    /// Decodes an opcode. Every opcode decodes: one that matches no row of the
    /// instruction table comes back as `ERROR`, carrying the opcode itself.
    pub fn new(value: u16) -> (inst: Instruction)
        ensures
            inst == decode(value),
            inst.well_formed(),
            in_table(value) ==> !(inst is ERROR),
            !in_table(value) ==> inst == Instruction::ERROR(value),
    {
        let lower1: u16 = value & 0x000F;
        let upper1: u16 = (value & 0x00F0) >> 4;
        let lower2: u16 = (value & 0x0F00) >> 8;
        let upper2: u16 = (value & 0xF000) >> 12;
        proof {
            assert(value & 0x000F == value % 0x10) by (bit_vector);
            assert((value & 0x00F0) >> 4 == (value / 0x10) % 0x10) by (bit_vector);
            assert((value & 0x0F00) >> 8 == (value / 0x100) % 0x10) by (bit_vector);
            assert((value & 0xF000) >> 12 == value / 0x1000) by (bit_vector);
            assert((((value & 0x0F00) >> 8) << 8) | (((value & 0x00F0) >> 4) << 4) | (value
                & 0x000F) == value % 0x1000) by (bit_vector);
            assert((((value & 0x00F0) >> 4) << 4) | (value & 0x000F) == value % 0x100)
                by (bit_vector);
            lemma_decode_total(value);
        }
        match (upper2, lower2, upper1, lower1) {
            (0x0, 0x0, 0xe, 0x0) => Instruction::ClearScreen,
            (0x0, 0x0, 0xe, 0xe) => Instruction::Ret,
            (0x1, n1, n2, n3) => Instruction::Jump(n1 << 8 | n2 << 4 | n3),
            (0x2, n1, n2, n3) => Instruction::Call(n1 << 8 | n2 << 4 | n3),
            (0x3, x, n1, n2) => Instruction::SkipNextInstruction(x, n1 << 4 | n2),
            (0x4, x, n1, n2) => Instruction::NSkipNextInstruction(x, n1 << 4 | n2),
            (0x5, x, y, 0x0) => Instruction::R2SkipNextInstruction(x, y),
            (0x6, x, n1, n2) => Instruction::SetRegister(x as u8, (n1 << 4 | n2) as u8),
            (0x7, x, n1, n2) => Instruction::AddRegister(x as u8, (n1 << 4 | n2) as u8),
            (0x8, x, y, 0x0) => Instruction::STORE(x, y),
            (0x8, x, y, 0x1) => Instruction::OR(x, y),
            (0x8, x, y, 0x2) => Instruction::AND(x, y),
            (0x8, x, y, 0x3) => Instruction::XOR(x, y),
            (0x8, x, y, 0x4) => Instruction::ADD(x, y),
            (0x8, x, y, 0x5) => Instruction::SUB(x, y),
            (0x8, x, _y, 0x6) => Instruction::SHR(x),
            (0x8, x, y, 0x7) => Instruction::SUBN(x, y),
            (0x8, x, _y, 0xE) => Instruction::SHL(x),
            (0x9, x, y, 0x0) => Instruction::NR2SkipNextInstruction(x, y),
            (0xa, n1, n2, n3) => Instruction::SetI(n1 << 8 | n2 << 4 | n3),
            (0xb, n1, n2, n3) => Instruction::Jump2(n1 << 8 | n2 << 4 | n3),
            (0xc, x, n1, n2) => Instruction::Random(x, n1 << 4 | n2),
            (0xd, x, y, n) => Instruction::Draw(x, y, n),
            (0xe, x, 0x9, 0xe) => Instruction::SkipIfPressed(x),
            (0xe, x, 0xa, 0x1) => Instruction::SkipIfNotPressed(x),
            (0xf, x, 0x0, 0x7) => Instruction::ReadDelay(x),
            (0xf, x, 0x0, 0xa) => Instruction::WaitKey(x),
            (0xf, x, 0x1, 0x5) => Instruction::SetDelay(x),
            (0xf, x, 0x1, 0x8) => Instruction::SetSound(x),
            (0xf, x, 0x1, 0xe) => Instruction::AddI(x),
            (0xf, x, 0x2, 0x9) => Instruction::SpriteDigit(x),
            (0xf, x, 0x3, 0x3) => Instruction::StoreBCD(x),
            (0xf, x, 0x5, 0x5) => Instruction::StoreRegisters(x),
            (0xf, x, 0x6, 0x5) => Instruction::ReadRegisters(x),
            _ => Instruction::ERROR(value),
        }
    }
}

/// Decoding never fails and never invents operands: the result is well
/// formed, it is `ERROR` exactly for the opcodes outside the instruction
/// table, and an `ERROR` carries the opcode unchanged.
pub proof fn lemma_decode_total(raw: u16)
    ensures
        decode(raw).well_formed(),
        decode(raw) is ERROR <==> !in_table(raw),
        decode(raw) is ERROR ==> decode(raw) == Instruction::ERROR(raw),
{
}

} // verus!
