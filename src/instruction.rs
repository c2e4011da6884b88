//! Instruction decoding: a total map from 16-bit opcodes to instructions.
use vstd::prelude::*;

verus! {

/// One decoded CHIP-8 instruction.
///
/// Register operands (`x`, `y`) and the sprite height are nibbles (0..=15),
/// `nn` is an 8-bit immediate and `nnn` a 12-bit address.
#[derive(Clone, Copy, Debug, PartialEq, Eq, Structural)]
pub enum Instruction {
    /// `0000`: does nothing but move PC on.
    NoOp,
    /// `00E0`
    ClearScreen,
    /// `00EE`: pops PC; faults on an empty stack.
    Return,
    /// `1nnn`
    Jump(u16),
    /// `2nnn`: pushes the next instruction's address; faults on a full stack.
    Call(u16),
    /// `3xnn`
    SkipIfEqualImm(u8, u8),
    /// `4xnn`
    SkipIfNotEqualImm(u8, u8),
    /// `5xy0`
    SkipIfEqualReg(u8, u8),
    /// `6xnn`
    SetImm(u8, u8),
    /// `7xnn`
    AddImm(u8, u8),
    /// `8xy0`
    Assign(u8, u8),
    /// `8xy1`
    Or(u8, u8),
    /// `8xy2`
    And(u8, u8),
    /// `8xy3`
    Xor(u8, u8),
    /// `8xy4`
    Add(u8, u8),
    /// `8xy5`
    Sub(u8, u8),
    /// `8xy6`
    ShiftRight(u8, u8),
    /// `8xy7`
    SubReversed(u8, u8),
    /// `8xyE`
    ShiftLeft(u8, u8),
    /// `9xy0`
    SkipIfNotEqualReg(u8, u8),
    /// `Annn`
    SetIndex(u16),
    /// `Bnnn`: jumps to `nnn + V0`.
    JumpOffset(u16),
    /// `Cxnn`: `Vx = random byte & nn`.
    Random(u8, u8),
    /// `Dxyn`: XOR-draws `n` rows from I at `(Vx, Vy)`, wrapping; VF = collision.
    Draw(u8, u8, u8),
    /// `Ex9E`: skips if the key numbered Vx is down; a value above 15 is no key.
    SkipIfKey(u8),
    /// `ExA1`: skips if the key numbered Vx is not down.
    SkipIfNotKey(u8),
    /// `Fx07`
    GetDelay(u8),
    /// `Fx0A`: waits, PC unchanged, until a key is down; the lowest one wins.
    AwaitKey(u8),
    /// `Fx15`
    SetDelay(u8),
    /// `Fx18`
    SetSound(u8),
    /// `Fx1E`: `I += Vx`; faults if I would leave memory.
    AddIndex(u8),
    /// `Fx29`: I = address of the glyph for the low nibble of Vx.
    SetIndexToGlyph(u8),
    /// `Fx33`: hundreds, tens and ones of Vx at I, I+1, I+2.
    StoreBcd(u8),
    /// `Fx55`: V0..=Vx to memory from I on.
    DumpRegisters(u8),
    /// `Fx65`: V0..=Vx from memory from I on.
    LoadRegisters(u8),
    /// Any other pattern, with its four nibbles from the most significant.
    Unknown(u8, u8, u8, u8),
}

/// The `k`-th nibble of `op`, counting from the least significant (k < 4).
pub open spec fn nibble(op: u16, k: u16) -> u16 {
    (op >> (4 * k)) & 0xF
}

/// What `op` decodes to, by the opcode table.
pub open spec fn decode_spec(op: u16) -> Instruction {
    let a = nibble(op, 3);
    let x = nibble(op, 2) as u8;
    let y = nibble(op, 1) as u8;
    let n = nibble(op, 0);
    let nnn = op & 0x0FFF;
    let nn = (op & 0x00FF) as u8;
    let unknown = Instruction::Unknown(a as u8, x, y, n as u8);
    if a == 0x0 {
        if op == 0x0000 {
            Instruction::NoOp
        } else if op == 0x00E0 {
            Instruction::ClearScreen
        } else if op == 0x00EE {
            Instruction::Return
        } else {
            unknown
        }
    } else if a == 0x1 {
        Instruction::Jump(nnn)
    } else if a == 0x2 {
        Instruction::Call(nnn)
    } else if a == 0x3 {
        Instruction::SkipIfEqualImm(x, nn)
    } else if a == 0x4 {
        Instruction::SkipIfNotEqualImm(x, nn)
    } else if a == 0x5 {
        if n == 0x0 { Instruction::SkipIfEqualReg(x, y) } else { unknown }
    } else if a == 0x6 {
        Instruction::SetImm(x, nn)
    } else if a == 0x7 {
        Instruction::AddImm(x, nn)
    } else if a == 0x8 {
        if n == 0x0 {
            Instruction::Assign(x, y)
        } else if n == 0x1 {
            Instruction::Or(x, y)
        } else if n == 0x2 {
            Instruction::And(x, y)
        } else if n == 0x3 {
            Instruction::Xor(x, y)
        } else if n == 0x4 {
            Instruction::Add(x, y)
        } else if n == 0x5 {
            Instruction::Sub(x, y)
        } else if n == 0x6 {
            Instruction::ShiftRight(x, y)
        } else if n == 0x7 {
            Instruction::SubReversed(x, y)
        } else if n == 0xE {
            Instruction::ShiftLeft(x, y)
        } else {
            unknown
        }
    } else if a == 0x9 {
        if n == 0x0 { Instruction::SkipIfNotEqualReg(x, y) } else { unknown }
    } else if a == 0xA {
        Instruction::SetIndex(nnn)
    } else if a == 0xB {
        Instruction::JumpOffset(nnn)
    } else if a == 0xC {
        Instruction::Random(x, nn)
    } else if a == 0xD {
        Instruction::Draw(x, y, n as u8)
    } else if a == 0xE {
        if nn == 0x9E {
            Instruction::SkipIfKey(x)
        } else if nn == 0xA1 {
            Instruction::SkipIfNotKey(x)
        } else {
            unknown
        }
    } else {
        if nn == 0x07 {
            Instruction::GetDelay(x)
        } else if nn == 0x0A {
            Instruction::AwaitKey(x)
        } else if nn == 0x15 {
            Instruction::SetDelay(x)
        } else if nn == 0x18 {
            Instruction::SetSound(x)
        } else if nn == 0x1E {
            Instruction::AddIndex(x)
        } else if nn == 0x29 {
            Instruction::SetIndexToGlyph(x)
        } else if nn == 0x33 {
            Instruction::StoreBcd(x)
        } else if nn == 0x55 {
            Instruction::DumpRegisters(x)
        } else if nn == 0x65 {
            Instruction::LoadRegisters(x)
        } else {
            unknown
        }
    }
}

/// The opcode that encodes `ins`, as an integer.
pub open spec fn encode(ins: Instruction) -> int {
    match ins {
        Instruction::NoOp => 0x0000,
        Instruction::ClearScreen => 0x00E0,
        Instruction::Return => 0x00EE,
        Instruction::Jump(nnn) => 0x1000 + nnn,
        Instruction::Call(nnn) => 0x2000 + nnn,
        Instruction::SkipIfEqualImm(x, nn) => 0x3000 + x * 0x100 + nn,
        Instruction::SkipIfNotEqualImm(x, nn) => 0x4000 + x * 0x100 + nn,
        Instruction::SkipIfEqualReg(x, y) => 0x5000 + x * 0x100 + y * 0x10,
        Instruction::SetImm(x, nn) => 0x6000 + x * 0x100 + nn,
        Instruction::AddImm(x, nn) => 0x7000 + x * 0x100 + nn,
        Instruction::Assign(x, y) => 0x8000 + x * 0x100 + y * 0x10,
        Instruction::Or(x, y) => 0x8001 + x * 0x100 + y * 0x10,
        Instruction::And(x, y) => 0x8002 + x * 0x100 + y * 0x10,
        Instruction::Xor(x, y) => 0x8003 + x * 0x100 + y * 0x10,
        Instruction::Add(x, y) => 0x8004 + x * 0x100 + y * 0x10,
        Instruction::Sub(x, y) => 0x8005 + x * 0x100 + y * 0x10,
        Instruction::ShiftRight(x, y) => 0x8006 + x * 0x100 + y * 0x10,
        Instruction::SubReversed(x, y) => 0x8007 + x * 0x100 + y * 0x10,
        Instruction::ShiftLeft(x, y) => 0x800E + x * 0x100 + y * 0x10,
        Instruction::SkipIfNotEqualReg(x, y) => 0x9000 + x * 0x100 + y * 0x10,
        Instruction::SetIndex(nnn) => 0xA000 + nnn,
        Instruction::JumpOffset(nnn) => 0xB000 + nnn,
        Instruction::Random(x, nn) => 0xC000 + x * 0x100 + nn,
        Instruction::Draw(x, y, n) => 0xD000 + x * 0x100 + y * 0x10 + n,
        Instruction::SkipIfKey(x) => 0xE09E + x * 0x100,
        Instruction::SkipIfNotKey(x) => 0xE0A1 + x * 0x100,
        Instruction::GetDelay(x) => 0xF007 + x * 0x100,
        Instruction::AwaitKey(x) => 0xF00A + x * 0x100,
        Instruction::SetDelay(x) => 0xF015 + x * 0x100,
        Instruction::SetSound(x) => 0xF018 + x * 0x100,
        Instruction::AddIndex(x) => 0xF01E + x * 0x100,
        Instruction::SetIndexToGlyph(x) => 0xF029 + x * 0x100,
        Instruction::StoreBcd(x) => 0xF033 + x * 0x100,
        Instruction::DumpRegisters(x) => 0xF055 + x * 0x100,
        Instruction::LoadRegisters(x) => 0xF065 + x * 0x100,
        Instruction::Unknown(a, b, c, d) => a * 0x1000 + b * 0x100 + c * 0x10 + d,
    }
}

/// An opcode is the sum of its nibbles at their places; its 12- and 8-bit
/// tails are the sums of the lower nibbles.
proof fn lemma_nibbles(op: u16)
    ensures
        nibble(op, 3) < 16,
        nibble(op, 2) < 16,
        nibble(op, 1) < 16,
        nibble(op, 0) < 16,
        op == nibble(op, 3) * 0x1000 + nibble(op, 2) * 0x100 + nibble(op, 1) * 0x10 + nibble(op, 0),
        op & 0x0FFF == nibble(op, 2) * 0x100 + nibble(op, 1) * 0x10 + nibble(op, 0),
        op & 0x00FF == nibble(op, 1) * 0x10 + nibble(op, 0),
{
    assert(nibble(op, 3) == (op >> 12) & 0xF);
    assert(nibble(op, 2) == (op >> 8) & 0xF);
    assert(nibble(op, 1) == (op >> 4) & 0xF);
    assert(nibble(op, 0) == (op >> 0) & 0xF);
    assert(
        ((op >> 12) & 0xF) < 16 && ((op >> 8) & 0xF) < 16 && ((op >> 4) & 0xF) < 16
            && ((op >> 0) & 0xF) < 16
            && op == ((op >> 12) & 0xF) * 0x1000 + ((op >> 8) & 0xF) * 0x100 + ((op >> 4) & 0xF)
            * 0x10 + ((op >> 0) & 0xF)
            && op & 0x0FFF == ((op >> 8) & 0xF) * 0x100 + ((op >> 4) & 0xF) * 0x10 + ((op >> 0)
            & 0xF)
            && op & 0x00FF == ((op >> 4) & 0xF) * 0x10 + ((op >> 0) & 0xF)
    ) by (bit_vector);
}

/// Decoding loses nothing: every opcode is the encoding of what it decodes to.
pub proof fn lemma_decode_lossless(op: u16)
    ensures
        encode(decode_spec(op)) == op as int,
{
    lemma_nibbles(op);
}

/// Register operands, nibbles and heights are below 16, addresses below 4096.
pub open spec fn operands_in_range(ins: Instruction) -> bool {
    match ins {
        Instruction::Jump(nnn) | Instruction::Call(nnn) | Instruction::SetIndex(nnn)
        | Instruction::JumpOffset(nnn) => nnn < 0x1000,
        Instruction::SkipIfEqualImm(x, _) | Instruction::SkipIfNotEqualImm(x, _)
        | Instruction::SetImm(x, _) | Instruction::AddImm(x, _) | Instruction::Random(x, _) => x < 16,
        Instruction::SkipIfEqualReg(x, y) | Instruction::Assign(x, y) | Instruction::Or(x, y)
        | Instruction::And(x, y) | Instruction::Xor(x, y) | Instruction::Add(x, y)
        | Instruction::Sub(x, y) | Instruction::ShiftRight(x, y) | Instruction::SubReversed(x, y)
        | Instruction::ShiftLeft(x, y) | Instruction::SkipIfNotEqualReg(x, y) => x < 16 && y < 16,
        Instruction::Draw(x, y, n) => x < 16 && y < 16 && n < 16,
        Instruction::SkipIfKey(x) | Instruction::SkipIfNotKey(x) | Instruction::GetDelay(x)
        | Instruction::AwaitKey(x) | Instruction::SetDelay(x) | Instruction::SetSound(x)
        | Instruction::AddIndex(x) | Instruction::SetIndexToGlyph(x) | Instruction::StoreBcd(x)
        | Instruction::DumpRegisters(x) | Instruction::LoadRegisters(x) => x < 16,
        Instruction::Unknown(a, b, c, d) => a < 16 && b < 16 && c < 16 && d < 16,
        _ => true,
    }
}

/// Whatever an opcode decodes to has its operands in range.
pub proof fn lemma_decode_in_range(op: u16)
    ensures
        operands_in_range(decode_spec(op)),
{
    lemma_nibbles(op);
}

/// Decodes a 16-bit opcode. Total: a pattern outside the table becomes
/// [`Instruction::Unknown`] with the opcode's four nibbles.
pub fn decode(op: u16) -> (ins: Instruction)
    ensures
        ins == decode_spec(op),
{
    let a = (op >> 12) & 0xF;
    let x = ((op >> 8) & 0xF) as u8;
    let y = ((op >> 4) & 0xF) as u8;
    let n = (op >> 0) & 0xF;
    let nnn = op & 0x0FFF;
    let nn = (op & 0x00FF) as u8;
    let unknown = Instruction::Unknown(a as u8, x, y, n as u8);
    match a {
        0x0 => {
            if op == 0x0000 {
                Instruction::NoOp
            } else if op == 0x00E0 {
                Instruction::ClearScreen
            } else if op == 0x00EE {
                Instruction::Return
            } else {
                unknown
            }
        },
        0x1 => Instruction::Jump(nnn),
        0x2 => Instruction::Call(nnn),
        0x3 => Instruction::SkipIfEqualImm(x, nn),
        0x4 => Instruction::SkipIfNotEqualImm(x, nn),
        0x5 => if n == 0x0 {
            Instruction::SkipIfEqualReg(x, y)
        } else {
            unknown
        },
        0x6 => Instruction::SetImm(x, nn),
        0x7 => Instruction::AddImm(x, nn),
        0x8 => match n {
            0x0 => Instruction::Assign(x, y),
            0x1 => Instruction::Or(x, y),
            0x2 => Instruction::And(x, y),
            0x3 => Instruction::Xor(x, y),
            0x4 => Instruction::Add(x, y),
            0x5 => Instruction::Sub(x, y),
            0x6 => Instruction::ShiftRight(x, y),
            0x7 => Instruction::SubReversed(x, y),
            0xE => Instruction::ShiftLeft(x, y),
            _ => unknown,
        },
        0x9 => if n == 0x0 {
            Instruction::SkipIfNotEqualReg(x, y)
        } else {
            unknown
        },
        0xA => Instruction::SetIndex(nnn),
        0xB => Instruction::JumpOffset(nnn),
        0xC => Instruction::Random(x, nn),
        0xD => Instruction::Draw(x, y, n as u8),
        0xE => match nn {
            0x9E => Instruction::SkipIfKey(x),
            0xA1 => Instruction::SkipIfNotKey(x),
            _ => unknown,
        },
        _ => match nn {
            0x07 => Instruction::GetDelay(x),
            0x0A => Instruction::AwaitKey(x),
            0x15 => Instruction::SetDelay(x),
            0x18 => Instruction::SetSound(x),
            0x1E => Instruction::AddIndex(x),
            0x29 => Instruction::SetIndexToGlyph(x),
            0x33 => Instruction::StoreBcd(x),
            0x55 => Instruction::DumpRegisters(x),
            0x65 => Instruction::LoadRegisters(x),
            _ => unknown,
        },
    }
}

} // verus!
