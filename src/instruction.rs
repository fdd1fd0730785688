use vstd::prelude::*;

verus! {

/// Place value of the hexadecimal digit at `position`, counted from the most
/// significant of the four digits of a 16-bit word.
pub open spec fn place_value(position: int) -> int {
    if position == 0 {
        0x1000
    } else if position == 1 {
        0x100
    } else if position == 2 {
        0x10
    } else {
        1
    }
}

/// The hexadecimal digit of `word` at `position` (0 is the most significant).
pub open spec fn nibble(word: u16, position: int) -> int {
    (word as int / place_value(position)) % 16
}

/// A decoded CHIP-8 instruction with its operands. `X` and `Y` name
/// registers, `N`, `NN` and `NNN` are the low four, eight and twelve bits.
#[derive(Debug, Clone, Copy, PartialEq, Eq, Structural)]
pub enum Instruction {
    /// A word that no handler of this machine recognises.
    NotImplemented,
    /// `00E0`: clear the display.
    ClearScreen,
    /// `00EE`: return from a subroutine.
    Return,
    /// `1NNN`: jump to address `NNN`.
    Jump(usize),
    /// `2NNN`: call the subroutine at `NNN`.
    Call(usize),
    /// `3XNN`: skip the next instruction when register `X` equals `NN`.
    SkipIfEqual(usize, u8),
    /// `4XNN`: skip the next instruction when register `X` differs from `NN`.
    SkipIfNotEqual(usize, u8),
    /// `5XY0`: skip the next instruction when registers `X` and `Y` are equal.
    SkipIfRegistersEqual(usize, usize),
    /// `6XNN`: set register `X` to `NN`.
    SetRegister(usize, u8),
    /// `7XNN`: add `NN` to register `X`, wrapping at 8 bits.
    AddToRegister(usize, u8),
    /// `8XY0`: copy register `Y` into register `X`.
    CopyRegister(usize, usize),
    /// `8XY1`: bitwise or of register `Y` into register `X`.
    Or(usize, usize),
    /// `8XY2`: bitwise and of register `Y` into register `X`.
    And(usize, usize),
    /// `8XY3`: bitwise exclusive or of register `Y` into register `X`.
    Xor(usize, usize),
    /// `8XY4`: add register `Y` to register `X`; the flag register gets the carry.
    AddRegisters(usize, usize),
    /// `8XY5`: subtract register `Y` from register `X`; the flag register gets
    /// 1 when no borrow occurs.
    SubtractRegisters(usize, usize),
    /// `8XY6`: register `X` gets register `Y` shifted right by one; the flag
    /// register gets the bit shifted out.
    ShiftRight(usize, usize),
    /// `8XY7`: register `X` gets register `Y` minus register `X`; the flag
    /// register gets 1 when no borrow occurs.
    SubtractReversed(usize, usize),
    /// `8XYE`: register `X` gets register `Y` shifted left by one; the flag
    /// register gets the bit shifted out.
    ShiftLeft(usize, usize),
    /// `9XY0`: skip the next instruction when registers `X` and `Y` differ.
    SkipIfRegistersNotEqual(usize, usize),
    /// `ANNN`: set the index register to `NNN`.
    SetI(u16),
    /// `BNNN`: jump to `NNN` plus register 0.
    JumpOffset(usize),
    /// `CXNN`: register `X` gets a random byte masked with `NN`.
    Random(usize, u8),
    /// `DXYN`: draw an `N`-row sprite at the coordinates held by registers `X` and `Y`.
    DrawSprite(usize, usize, u8),
    /// `EX9E`: skip the next instruction when the key in register `X` is down.
    SkipIfKey(usize),
    /// `EXA1`: skip the next instruction when the key in register `X` is up.
    SkipIfNotKey(usize),
    /// `FX07`: register `X` gets the delay timer.
    ReadDelayTimer(usize),
    /// `FX0A`: wait for a key press and put the key in register `X`.
    WaitForKey(usize),
    /// `FX15`: the delay timer gets register `X`.
    SetDelayTimer(usize),
    /// `FX18`: the sound timer gets register `X`.
    SetSoundTimer(usize),
    /// `FX1E`: add register `X` to the index register.
    AddToI(usize),
    /// `FX29`: point the index register at the font glyph for the low digit of
    /// register `X`.
    FontCharacter(usize),
    /// `FX33`: store the three decimal digits of register `X` at the index register.
    StoreDecimal(usize),
    /// `FX55`: store registers 0 to `X` in memory from the index register on.
    StoreRegisters(usize),
    /// `FX65`: load registers 0 to `X` from memory from the index register on.
    LoadRegisters(usize),
}

/// The instruction that a 16-bit word stands for.
pub open spec fn decode(word: u16) -> Instruction {
    let family = nibble(word, 0);
    let x = nibble(word, 1) as usize;
    let y = nibble(word, 2) as usize;
    let n = nibble(word, 3);
    let nn = (word as int % 0x100) as u8;
    let nnn = (word as int % 0x1000) as usize;
    if family == 0 {
        if word == 0x00E0 {
            Instruction::ClearScreen
        } else if word == 0x00EE {
            Instruction::Return
        } else {
            Instruction::NotImplemented
        }
    } else if family == 1 {
        Instruction::Jump(nnn)
    } else if family == 2 {
        Instruction::Call(nnn)
    } else if family == 3 {
        Instruction::SkipIfEqual(x, nn)
    } else if family == 4 {
        Instruction::SkipIfNotEqual(x, nn)
    } else if family == 5 && n == 0 {
        Instruction::SkipIfRegistersEqual(x, y)
    } else if family == 6 {
        Instruction::SetRegister(x, nn)
    } else if family == 7 {
        Instruction::AddToRegister(x, nn)
    } else if family == 8 {
        decode_arithmetic(x, y, n)
    } else if family == 9 && n == 0 {
        Instruction::SkipIfRegistersNotEqual(x, y)
    } else if family == 0xA {
        Instruction::SetI(nnn as u16)
    } else if family == 0xB {
        Instruction::JumpOffset(nnn)
    } else if family == 0xC {
        Instruction::Random(x, nn)
    } else if family == 0xD {
        Instruction::DrawSprite(x, y, n as u8)
    } else if family == 0xE {
        if nn == 0x9E {
            Instruction::SkipIfKey(x)
        } else if nn == 0xA1 {
            Instruction::SkipIfNotKey(x)
        } else {
            Instruction::NotImplemented
        }
    } else if family == 0xF {
        decode_misc(x, nn)
    } else {
        Instruction::NotImplemented
    }
}

/// The `8XYN` family, by its low digit.
pub open spec fn decode_arithmetic(x: usize, y: usize, n: int) -> Instruction {
    if n == 0 {
        Instruction::CopyRegister(x, y)
    } else if n == 1 {
        Instruction::Or(x, y)
    } else if n == 2 {
        Instruction::And(x, y)
    } else if n == 3 {
        Instruction::Xor(x, y)
    } else if n == 4 {
        Instruction::AddRegisters(x, y)
    } else if n == 5 {
        Instruction::SubtractRegisters(x, y)
    } else if n == 6 {
        Instruction::ShiftRight(x, y)
    } else if n == 7 {
        Instruction::SubtractReversed(x, y)
    } else if n == 0xE {
        Instruction::ShiftLeft(x, y)
    } else {
        Instruction::NotImplemented
    }
}

/// The `FXNN` family, by its low byte.
pub open spec fn decode_misc(x: usize, nn: u8) -> Instruction {
    if nn == 0x07 {
        Instruction::ReadDelayTimer(x)
    } else if nn == 0x0A {
        Instruction::WaitForKey(x)
    } else if nn == 0x15 {
        Instruction::SetDelayTimer(x)
    } else if nn == 0x18 {
        Instruction::SetSoundTimer(x)
    } else if nn == 0x1E {
        Instruction::AddToI(x)
    } else if nn == 0x29 {
        Instruction::FontCharacter(x)
    } else if nn == 0x33 {
        Instruction::StoreDecimal(x)
    } else if nn == 0x55 {
        Instruction::StoreRegisters(x)
    } else if nn == 0x65 {
        Instruction::LoadRegisters(x)
    } else {
        Instruction::NotImplemented
    }
}

impl Instruction {
    /// Register indices name one of the sixteen registers, addresses have
    /// twelve bits and a sprite is at most fifteen rows high, as every decoded
    /// word gives.
    pub open spec fn operands_in_range(self) -> bool {
        match self {
            Instruction::Jump(address) => address < 0x1000,
            Instruction::Call(address) => address < 0x1000,
            Instruction::JumpOffset(address) => address < 0x1000,
            Instruction::SkipIfEqual(x, _) => x < 16,
            Instruction::SkipIfNotEqual(x, _) => x < 16,
            Instruction::SkipIfRegistersEqual(x, y) => x < 16 && y < 16,
            Instruction::SetRegister(x, _) => x < 16,
            Instruction::AddToRegister(x, _) => x < 16,
            Instruction::CopyRegister(x, y) => x < 16 && y < 16,
            Instruction::Or(x, y) => x < 16 && y < 16,
            Instruction::And(x, y) => x < 16 && y < 16,
            Instruction::Xor(x, y) => x < 16 && y < 16,
            Instruction::AddRegisters(x, y) => x < 16 && y < 16,
            Instruction::SubtractRegisters(x, y) => x < 16 && y < 16,
            Instruction::ShiftRight(x, y) => x < 16 && y < 16,
            Instruction::SubtractReversed(x, y) => x < 16 && y < 16,
            Instruction::ShiftLeft(x, y) => x < 16 && y < 16,
            Instruction::SkipIfRegistersNotEqual(x, y) => x < 16 && y < 16,
            Instruction::Random(x, _) => x < 16,
            Instruction::DrawSprite(x, y, height) => x < 16 && y < 16 && height < 16,
            Instruction::SkipIfKey(x) => x < 16,
            Instruction::SkipIfNotKey(x) => x < 16,
            Instruction::ReadDelayTimer(x) => x < 16,
            Instruction::WaitForKey(x) => x < 16,
            Instruction::SetDelayTimer(x) => x < 16,
            Instruction::SetSoundTimer(x) => x < 16,
            Instruction::AddToI(x) => x < 16,
            Instruction::FontCharacter(x) => x < 16,
            Instruction::StoreDecimal(x) => x < 16,
            Instruction::StoreRegisters(x) => x < 16,
            Instruction::LoadRegisters(x) => x < 16,
            _ => true,
        }
    }

    /// Decodes a raw instruction word. Every word decodes; unknown ones give
    /// `NotImplemented`.
    pub fn from_raw(bytes: u16) -> (r: Self)
        ensures
            r == decode(bytes),
            r.operands_in_range(),
    {
        let x = Self::nibble_left(bytes, 1) as usize;
        let y = Self::nibble_left(bytes, 2) as usize;
        let n = Self::nibble_left(bytes, 3);
        assert((bytes & 0x00FF) == bytes % 0x100) by (bit_vector);
        assert((bytes & 0x0FFF) == bytes % 0x1000) by (bit_vector);
        let nn = (bytes & 0x00FF) as u8;
        let nnn = (bytes & 0x0FFF) as usize;
        match Self::nibble_left(bytes, 0) {
            0 => {
                if bytes == 0x00E0 {
                    Self::ClearScreen
                } else if bytes == 0x00EE {
                    Self::Return
                } else {
                    Self::NotImplemented
                }
            },
            1 => Self::Jump(nnn),
            2 => Self::Call(nnn),
            3 => Self::SkipIfEqual(x, nn),
            4 => Self::SkipIfNotEqual(x, nn),
            5 => {
                if n == 0 {
                    Self::SkipIfRegistersEqual(x, y)
                } else {
                    Self::NotImplemented
                }
            },
            6 => Self::SetRegister(x, nn),
            7 => Self::AddToRegister(x, nn),
            8 => Self::from_arithmetic(x, y, n),
            9 => {
                if n == 0 {
                    Self::SkipIfRegistersNotEqual(x, y)
                } else {
                    Self::NotImplemented
                }
            },
            0xA => Self::SetI(nnn as u16),
            0xB => Self::JumpOffset(nnn),
            0xC => Self::Random(x, nn),
            0xD => Self::DrawSprite(x, y, n),
            0xE => {
                if nn == 0x9E {
                    Self::SkipIfKey(x)
                } else if nn == 0xA1 {
                    Self::SkipIfNotKey(x)
                } else {
                    Self::NotImplemented
                }
            },
            0xF => Self::from_misc(x, nn),
            _ => Self::NotImplemented,
        }
    }

    fn from_arithmetic(x: usize, y: usize, n: u8) -> (r: Self)
        requires
            x < 16,
            y < 16,
        ensures
            r == decode_arithmetic(x, y, n as int),
            r.operands_in_range(),
    {
        match n {
            0 => Self::CopyRegister(x, y),
            1 => Self::Or(x, y),
            2 => Self::And(x, y),
            3 => Self::Xor(x, y),
            4 => Self::AddRegisters(x, y),
            5 => Self::SubtractRegisters(x, y),
            6 => Self::ShiftRight(x, y),
            7 => Self::SubtractReversed(x, y),
            0xE => Self::ShiftLeft(x, y),
            _ => Self::NotImplemented,
        }
    }

    fn from_misc(x: usize, nn: u8) -> (r: Self)
        requires
            x < 16,
        ensures
            r == decode_misc(x, nn),
            r.operands_in_range(),
    {
        match nn {
            0x07 => Self::ReadDelayTimer(x),
            0x0A => Self::WaitForKey(x),
            0x15 => Self::SetDelayTimer(x),
            0x18 => Self::SetSoundTimer(x),
            0x1E => Self::AddToI(x),
            0x29 => Self::FontCharacter(x),
            0x33 => Self::StoreDecimal(x),
            0x55 => Self::StoreRegisters(x),
            0x65 => Self::LoadRegisters(x),
            _ => Self::NotImplemented,
        }
    }

    /// The hexadecimal digit of `bytes` at `position`, counted from the most
    /// significant digit.
    pub fn nibble_left(bytes: u16, position: usize) -> (r: u8)
        requires
            position < 4,
        ensures
            r as int == nibble(bytes, position as int),
    {
        let mask: u16 = 0xF000u16 >> ((position * 4) as u16);
        let shift: u16 = (12 - position * 4) as u16;
        let r = (bytes & mask) >> shift;
        proof {
            if position == 0 {
                assert(((bytes & (0xF000u16 >> 0u16)) >> 12u16) == bytes / 0x1000) by (bit_vector);
            } else if position == 1 {
                assert(((bytes & (0xF000u16 >> 4u16)) >> 8u16) == (bytes / 0x100) % 16) by (bit_vector);
            } else if position == 2 {
                assert(((bytes & (0xF000u16 >> 8u16)) >> 4u16) == (bytes / 0x10) % 16) by (bit_vector);
            } else {
                assert(((bytes & (0xF000u16 >> 12u16)) >> 0u16) == bytes % 16) by (bit_vector);
            }
        }
        r as u8
    }
}

} // verus!
