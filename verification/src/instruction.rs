//! Instruction forms and the decoder from 16-bit words.

use vstd::prelude::*;

verus! {

/// One decoded instruction. Register operands are named `x` and `y` in the
/// comments; immediates are `nn` (8 bits), `nnn` (12 bits) and `n` (4 bits).
#[derive(Clone, Copy, Debug, PartialEq, Eq, Structural)]
pub enum Instruction {
    /// `0000`: do nothing.
    Nop,
    /// `00E0`: clear the display.
    ClearDisplay,
    /// `00EE`: return from a subroutine.
    Return,
    /// `1nnn`: jump to `nnn`.
    Jump(u16),
    /// `2nnn`: call the subroutine at `nnn`.
    Call(u16),
    /// `3xnn`: skip the next instruction if `V[x] == nn`.
    SkipIfEqual(u8, u8),
    /// `4xnn`: skip the next instruction if `V[x] != nn`.
    SkipIfNotEqual(u8, u8),
    /// `5xy0`: skip the next instruction if `V[x] == V[y]`.
    SkipIfRegistersEqual(u8, u8),
    /// `6xnn`: `V[x] = nn`.
    LoadImmediate(u8, u8),
    /// `7xnn`: `V[x] += nn`, wrapping, flag untouched.
    AddImmediate(u8, u8),
    /// `8xy0`: `V[x] = V[y]`.
    Move(u8, u8),
    /// `8xy1`: `V[x] |= V[y]`.
    Or(u8, u8),
    /// `8xy2`: `V[x] &= V[y]`.
    And(u8, u8),
    /// `8xy3`: `V[x] ^= V[y]`.
    Xor(u8, u8),
    /// `8xy4`: `V[x] += V[y]`, wrapping; the flag register receives the carry.
    AddRegister(u8, u8),
    /// `8xy5`: `V[x] -= V[y]`, wrapping; the flag register is 1 when no borrow occurred.
    SubRegister(u8, u8),
    /// `8xy6`: `V[x] = V[y] >> 1`; the flag register receives the bit shifted out.
    ShiftRight(u8, u8),
    /// `8xy7`: `V[x] = V[y] - V[x]`, wrapping; the flag register is 1 when no borrow occurred.
    SubReversed(u8, u8),
    /// `8xyE`: `V[x] = V[y] << 1`; the flag register receives the bit shifted out.
    ShiftLeft(u8, u8),
    /// `9xy0`: skip the next instruction if `V[x] != V[y]`.
    SkipIfRegistersNotEqual(u8, u8),
    /// `Annn`: `I = nnn`.
    LoadIndex(u16),
    /// `Bnnn`: jump to `nnn + V[0]`.
    JumpOffset(u16),
    /// `Cxnn`: `V[x] = random byte & nn`.
    Random(u8, u8),
    /// `Dxyn`: draw an `n`-row sprite at (`V[x]`, `V[y]`).
    Draw(u8, u8, u8),
    /// `Ex9E`: skip the next instruction if key `V[x]` is pressed.
    SkipIfKeyPressed(u8),
    /// `ExA1`: skip the next instruction if key `V[x]` is released.
    SkipIfKeyReleased(u8),
    /// `Fx07`: `V[x] = delay timer`.
    ReadDelay(u8),
    /// `Fx0A`: wait until a key is pressed, then `V[x] = key`.
    WaitKey(u8),
    /// `Fx15`: `delay timer = V[x]`.
    SetDelay(u8),
    /// `Fx18`: `sound timer = V[x]`.
    SetSound(u8),
    /// `Fx1E`: `I += V[x]`, wrapping at 16 bits.
    AddIndex(u8),
    /// `Fx29`: `I = 5 * V[x]`, the address of a glyph.
    LoadGlyph(u8),
    /// `Fx33`: store the decimal digits of `V[x]` at `I`, `I + 1`, `I + 2`.
    StoreDecimal(u8),
    /// `Fx55`: store `V[0..=x]` at `I`, then `I += x + 1`.
    StoreRegisters(u8),
    /// `Fx65`: load `V[0..=x]` from `I`, then `I += x + 1`.
    LoadRegisters(u8),
}

impl Instruction {
    /// Operands are in range: register numbers and the sprite height below 16,
    /// addresses below 4096.
    pub open spec fn wf(self) -> bool {
        match self {
            Instruction::Nop | Instruction::ClearDisplay | Instruction::Return => true,
            Instruction::Jump(nnn)
            | Instruction::Call(nnn)
            | Instruction::LoadIndex(nnn)
            | Instruction::JumpOffset(nnn) => nnn < 0x1000,
            Instruction::SkipIfEqual(x, _)
            | Instruction::SkipIfNotEqual(x, _)
            | Instruction::LoadImmediate(x, _)
            | Instruction::AddImmediate(x, _)
            | Instruction::Random(x, _) => x < 16,
            Instruction::SkipIfRegistersEqual(x, y)
            | Instruction::Move(x, y)
            | Instruction::Or(x, y)
            | Instruction::And(x, y)
            | Instruction::Xor(x, y)
            | Instruction::AddRegister(x, y)
            | Instruction::SubRegister(x, y)
            | Instruction::ShiftRight(x, y)
            | Instruction::SubReversed(x, y)
            | Instruction::ShiftLeft(x, y)
            | Instruction::SkipIfRegistersNotEqual(x, y) => x < 16 && y < 16,
            Instruction::Draw(x, y, n) => x < 16 && y < 16 && n < 16,
            Instruction::SkipIfKeyPressed(x)
            | Instruction::SkipIfKeyReleased(x)
            | Instruction::ReadDelay(x)
            | Instruction::WaitKey(x)
            | Instruction::SetDelay(x)
            | Instruction::SetSound(x)
            | Instruction::AddIndex(x)
            | Instruction::LoadGlyph(x)
            | Instruction::StoreDecimal(x)
            | Instruction::StoreRegisters(x)
            | Instruction::LoadRegisters(x) => x < 16,
        }
    }

    /// The instruction names its own successor: a jump, a call or a return.
    pub open spec fn is_transfer(self) -> bool {
        self is Return || self is Jump || self is Call || self is JumpOffset
    }

    /// The instruction writes one general register, and the flag register
    /// where it has a flag, and nothing else.
    pub open spec fn is_register_write(self) -> bool {
        self is LoadImmediate || self is AddImmediate || self is Move || self is Or || self is And
            || self is Xor || self is AddRegister || self is SubRegister || self is ShiftRight
            || self is SubReversed || self is ShiftLeft || self is Random || self is ReadDelay
    }

    /// The instruction may skip over its successor.
    pub open spec fn is_skip(self) -> bool {
        self is SkipIfEqual || self is SkipIfNotEqual || self is SkipIfRegistersEqual
            || self is SkipIfRegistersNotEqual || self is SkipIfKeyPressed
            || self is SkipIfKeyReleased
    }
}

/// The four 4-bit fields of a word, most significant first.
pub open spec fn nibbles(word: u16) -> (int, int, int, int) {
    (word as int / 0x1000, (word as int / 0x100) % 16, (word as int / 0x10) % 16, word as int % 16)
}

/// The instruction that a word encodes, or `None` where it matches no form.
pub open spec fn decode_word(word: u16) -> Option<Instruction> {
    let (n1, n2, n3, n4) = nibbles(word);
    let x = n2 as u8;
    let y = n3 as u8;
    let n = n4 as u8;
    let nn = (word as int % 0x100) as u8;
    let nnn = (word as int % 0x1000) as u16;
    if n1 == 0x0 {
        if word == 0x0000 {
            Some(Instruction::Nop)
        } else if word == 0x00E0 {
            Some(Instruction::ClearDisplay)
        } else if word == 0x00EE {
            Some(Instruction::Return)
        } else {
            None
        }
    } else if n1 == 0x1 {
        Some(Instruction::Jump(nnn))
    } else if n1 == 0x2 {
        Some(Instruction::Call(nnn))
    } else if n1 == 0x3 {
        Some(Instruction::SkipIfEqual(x, nn))
    } else if n1 == 0x4 {
        Some(Instruction::SkipIfNotEqual(x, nn))
    } else if n1 == 0x5 {
        if n4 == 0 {
            Some(Instruction::SkipIfRegistersEqual(x, y))
        } else {
            None
        }
    } else if n1 == 0x6 {
        Some(Instruction::LoadImmediate(x, nn))
    } else if n1 == 0x7 {
        Some(Instruction::AddImmediate(x, nn))
    } else if n1 == 0x8 {
        if n4 == 0x0 {
            Some(Instruction::Move(x, y))
        } else if n4 == 0x1 {
            Some(Instruction::Or(x, y))
        } else if n4 == 0x2 {
            Some(Instruction::And(x, y))
        } else if n4 == 0x3 {
            Some(Instruction::Xor(x, y))
        } else if n4 == 0x4 {
            Some(Instruction::AddRegister(x, y))
        } else if n4 == 0x5 {
            Some(Instruction::SubRegister(x, y))
        } else if n4 == 0x6 {
            Some(Instruction::ShiftRight(x, y))
        } else if n4 == 0x7 {
            Some(Instruction::SubReversed(x, y))
        } else if n4 == 0xE {
            Some(Instruction::ShiftLeft(x, y))
        } else {
            None
        }
    } else if n1 == 0x9 {
        if n4 == 0 {
            Some(Instruction::SkipIfRegistersNotEqual(x, y))
        } else {
            None
        }
    } else if n1 == 0xA {
        Some(Instruction::LoadIndex(nnn))
    } else if n1 == 0xB {
        Some(Instruction::JumpOffset(nnn))
    } else if n1 == 0xC {
        Some(Instruction::Random(x, nn))
    } else if n1 == 0xD {
        Some(Instruction::Draw(x, y, n))
    } else if n1 == 0xE {
        if nn == 0x9E {
            Some(Instruction::SkipIfKeyPressed(x))
        } else if nn == 0xA1 {
            Some(Instruction::SkipIfKeyReleased(x))
        } else {
            None
        }
    } else {
        if nn == 0x07 {
            Some(Instruction::ReadDelay(x))
        } else if nn == 0x0A {
            Some(Instruction::WaitKey(x))
        } else if nn == 0x15 {
            Some(Instruction::SetDelay(x))
        } else if nn == 0x18 {
            Some(Instruction::SetSound(x))
        } else if nn == 0x1E {
            Some(Instruction::AddIndex(x))
        } else if nn == 0x29 {
            Some(Instruction::LoadGlyph(x))
        } else if nn == 0x33 {
            Some(Instruction::StoreDecimal(x))
        } else if nn == 0x55 {
            Some(Instruction::StoreRegisters(x))
        } else if nn == 0x65 {
            Some(Instruction::LoadRegisters(x))
        } else {
            None
        }
    }
}

/// Every decoded instruction has operands in range.
pub proof fn lemma_decoded_is_wf(word: u16)
    ensures
        decode_word(word) matches Some(i) ==> i.wf(),
{
}

/// Splits a word into its fields and selects the instruction form.
pub fn decode(word: u16) -> (result: Option<Instruction>)
    ensures
        result == decode_word(word),
        result matches Some(i) ==> i.wf(),
{
    let n1: u16 = word / 0x1000;
    let x: u8 = ((word / 0x100) % 16) as u8;
    let y: u8 = ((word / 0x10) % 16) as u8;
    let n: u8 = (word % 16) as u8;
    let nn: u8 = (word % 0x100) as u8;
    let nnn: u16 = word % 0x1000;
    match (n1, n) {
        (0x0, _) => match word {
            0x0000 => Some(Instruction::Nop),
            0x00E0 => Some(Instruction::ClearDisplay),
            0x00EE => Some(Instruction::Return),
            _ => None,
        },
        (0x1, _) => Some(Instruction::Jump(nnn)),
        (0x2, _) => Some(Instruction::Call(nnn)),
        (0x3, _) => Some(Instruction::SkipIfEqual(x, nn)),
        (0x4, _) => Some(Instruction::SkipIfNotEqual(x, nn)),
        (0x5, 0x0) => Some(Instruction::SkipIfRegistersEqual(x, y)),
        (0x6, _) => Some(Instruction::LoadImmediate(x, nn)),
        (0x7, _) => Some(Instruction::AddImmediate(x, nn)),
        (0x8, 0x0) => Some(Instruction::Move(x, y)),
        (0x8, 0x1) => Some(Instruction::Or(x, y)),
        (0x8, 0x2) => Some(Instruction::And(x, y)),
        (0x8, 0x3) => Some(Instruction::Xor(x, y)),
        (0x8, 0x4) => Some(Instruction::AddRegister(x, y)),
        (0x8, 0x5) => Some(Instruction::SubRegister(x, y)),
        (0x8, 0x6) => Some(Instruction::ShiftRight(x, y)),
        (0x8, 0x7) => Some(Instruction::SubReversed(x, y)),
        (0x8, 0xE) => Some(Instruction::ShiftLeft(x, y)),
        (0x9, 0x0) => Some(Instruction::SkipIfRegistersNotEqual(x, y)),
        (0xA, _) => Some(Instruction::LoadIndex(nnn)),
        (0xB, _) => Some(Instruction::JumpOffset(nnn)),
        (0xC, _) => Some(Instruction::Random(x, nn)),
        (0xD, _) => Some(Instruction::Draw(x, y, n)),
        (0xE, _) => match nn {
            0x9E => Some(Instruction::SkipIfKeyPressed(x)),
            0xA1 => Some(Instruction::SkipIfKeyReleased(x)),
            _ => None,
        },
        (0xF, _) => match nn {
            0x07 => Some(Instruction::ReadDelay(x)),
            0x0A => Some(Instruction::WaitKey(x)),
            0x15 => Some(Instruction::SetDelay(x)),
            0x18 => Some(Instruction::SetSound(x)),
            0x1E => Some(Instruction::AddIndex(x)),
            0x29 => Some(Instruction::LoadGlyph(x)),
            0x33 => Some(Instruction::StoreDecimal(x)),
            0x55 => Some(Instruction::StoreRegisters(x)),
            0x65 => Some(Instruction::LoadRegisters(x)),
            _ => None,
        },
        _ => None,
    }
}

} // verus!
