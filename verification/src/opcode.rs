//! Instruction words and their decoded form.

use vstd::prelude::*;

verus! {

/// A decoded instruction. `x` and `y` name registers, `nn` is an immediate
/// byte, `addr` a twelve-bit address and `n` a sprite height.
#[derive(Debug, Clone, Copy, PartialEq, Eq, Structural)]
pub enum Instruction {
    /// `0000`: do nothing.
    Nop,
    /// `00E0`: turn every pixel off.
    ClearScreen,
    /// `00EE`: return from a subroutine.
    Return,
    /// `1nnn`: jump to `addr`.
    Jump { addr: u16 },
    /// `2nnn`: call the subroutine at `addr`.
    Call { addr: u16 },
    /// `3xnn`: skip the next instruction if register `x` equals `nn`.
    SkipEqImm { x: u8, nn: u8 },
    /// `4xnn`: skip the next instruction if register `x` differs from `nn`.
    SkipNeImm { x: u8, nn: u8 },
    /// `5xy0`: skip the next instruction if registers `x` and `y` are equal.
    SkipEqReg { x: u8, y: u8 },
    /// `6xnn`: set register `x` to `nn`.
    LoadImm { x: u8, nn: u8 },
    /// `7xnn`: add `nn` to register `x`, wrapping, without touching the flag.
    AddImm { x: u8, nn: u8 },
    /// `8xy0`: copy register `y` into register `x`.
    Move { x: u8, y: u8 },
    /// `8xy1`: bitwise or of registers `x` and `y` into `x`.
    Or { x: u8, y: u8 },
    /// `8xy2`: bitwise and of registers `x` and `y` into `x`.
    And { x: u8, y: u8 },
    /// `8xy3`: bitwise exclusive or of registers `x` and `y` into `x`.
    Xor { x: u8, y: u8 },
    /// `8xy4`: add register `y` to register `x`; the flag is the carry.
    AddReg { x: u8, y: u8 },
    /// `8xy5`: subtract register `y` from register `x`; the flag is set
    /// unless the subtraction borrowed.
    SubReg { x: u8, y: u8 },
    /// `8x_6`: shift register `x` right by one; the flag is the bit shifted out.
    ShiftRight { x: u8 },
    /// `8xy7`: set register `x` to register `y` minus register `x`; the
    /// flag is set unless the subtraction borrowed.
    SubFrom { x: u8, y: u8 },
    /// `8x_E`: shift register `x` left by one; the flag is the bit shifted out.
    ShiftLeft { x: u8 },
    /// `9xy0`: skip the next instruction if registers `x` and `y` differ.
    SkipNeReg { x: u8, y: u8 },
    /// `Annn`: set the index register to `addr`.
    LoadIndex { addr: u16 },
    /// `Bnnn`: jump to `addr` plus register 0.
    JumpOffset { addr: u16 },
    /// `Cxnn`: set register `x` to a random byte masked by `nn`.
    Random { x: u8, nn: u8 },
    /// `Dxyn`: draw the `n`-row sprite at the index register at the
    /// position held by registers `x` and `y`.
    Draw { x: u8, y: u8, n: u8 },
}

impl Instruction {
    /// Every operand is within the width of its field in the instruction word.
    pub open spec fn wf(self) -> bool {
        match self {
            Instruction::Nop | Instruction::ClearScreen | Instruction::Return => true,
            Instruction::Jump { addr }
            | Instruction::Call { addr }
            | Instruction::LoadIndex { addr }
            | Instruction::JumpOffset { addr } => addr < 0x1000,
            Instruction::SkipEqImm { x, .. }
            | Instruction::SkipNeImm { x, .. }
            | Instruction::LoadImm { x, .. }
            | Instruction::AddImm { x, .. }
            | Instruction::Random { x, .. }
            | Instruction::ShiftRight { x }
            | Instruction::ShiftLeft { x } => x < 16,
            Instruction::SkipEqReg { x, y }
            | Instruction::SkipNeReg { x, y }
            | Instruction::Move { x, y }
            | Instruction::Or { x, y }
            | Instruction::And { x, y }
            | Instruction::Xor { x, y }
            | Instruction::AddReg { x, y }
            | Instruction::SubReg { x, y }
            | Instruction::SubFrom { x, y } => x < 16 && y < 16,
            Instruction::Draw { x, y, n } => x < 16 && y < 16 && n < 16,
        }
    }
}

/// The four hexadecimal digits of an instruction word, most significant first.
pub open spec fn digits(opcode: u16) -> (u8, u8, u8, u8) {
    (
        (opcode / 0x1000) as u8,
        (opcode / 0x100 % 16) as u8,
        (opcode / 0x10 % 16) as u8,
        (opcode % 16) as u8,
    )
}

/// The low byte of an instruction word.
pub open spec fn low_byte(opcode: u16) -> u8 {
    (opcode % 0x100) as u8
}

/// The low twelve bits of an instruction word.
pub open spec fn low_address(opcode: u16) -> u16 {
    opcode % 0x1000
}

/// The instruction that a word stands for, or `None` where the word is not
/// part of the implemented instruction set.
pub open spec fn decode_spec(opcode: u16) -> Option<Instruction> {
    let (family, x, y, n) = digits(opcode);
    let nn: u8 = low_byte(opcode);
    let addr: u16 = low_address(opcode);
    if family == 0x0 {
        if opcode == 0x0000 {
            Some(Instruction::Nop)
        } else if opcode == 0x00E0 {
            Some(Instruction::ClearScreen)
        } else if opcode == 0x00EE {
            Some(Instruction::Return)
        } else {
            None
        }
    } else if family == 0x1 {
        Some(Instruction::Jump { addr })
    } else if family == 0x2 {
        Some(Instruction::Call { addr })
    } else if family == 0x3 {
        Some(Instruction::SkipEqImm { x, nn })
    } else if family == 0x4 {
        Some(Instruction::SkipNeImm { x, nn })
    } else if family == 0x5 {
        if n == 0 {
            Some(Instruction::SkipEqReg { x, y })
        } else {
            None
        }
    } else if family == 0x6 {
        Some(Instruction::LoadImm { x, nn })
    } else if family == 0x7 {
        Some(Instruction::AddImm { x, nn })
    } else if family == 0x8 {
        if n == 0x0 {
            Some(Instruction::Move { x, y })
        } else if n == 0x1 {
            Some(Instruction::Or { x, y })
        } else if n == 0x2 {
            Some(Instruction::And { x, y })
        } else if n == 0x3 {
            Some(Instruction::Xor { x, y })
        } else if n == 0x4 {
            Some(Instruction::AddReg { x, y })
        } else if n == 0x5 {
            Some(Instruction::SubReg { x, y })
        } else if n == 0x6 {
            Some(Instruction::ShiftRight { x })
        } else if n == 0x7 {
            Some(Instruction::SubFrom { x, y })
        } else if n == 0xE {
            Some(Instruction::ShiftLeft { x })
        } else {
            None
        }
    } else if family == 0x9 {
        if n == 0 {
            Some(Instruction::SkipNeReg { x, y })
        } else {
            None
        }
    } else if family == 0xA {
        Some(Instruction::LoadIndex { addr })
    } else if family == 0xB {
        Some(Instruction::JumpOffset { addr })
    } else if family == 0xC {
        Some(Instruction::Random { x, nn })
    } else if family == 0xD {
        Some(Instruction::Draw { x, y, n })
    } else {
        None
    }
}

/// Whether executing the word consumes a random byte.
pub open spec fn uses_random(opcode: u16) -> bool {
    opcode / 0x1000 == 0xC
}

/// Tells whether executing the word consumes a random byte.
pub fn needs_random(opcode: u16) -> (needed: bool)
    ensures
        needed == uses_random(opcode),
{
    assert((opcode >> 12) == opcode / 0x1000) by (bit_vector);
    (opcode >> 12) == 0xC
}

/// Splits an instruction word into its fields by shifting and masking.
pub fn split(opcode: u16) -> (fields: ((u8, u8, u8, u8), u8, u16))
    ensures
        fields.0 == digits(opcode),
        fields.1 == low_byte(opcode),
        fields.2 == low_address(opcode),
        fields.0.0 < 16 && fields.0.1 < 16 && fields.0.2 < 16 && fields.0.3 < 16,
        fields.2 < 0x1000,
{
    let digit3: u16 = (opcode >> 12) & 0xF;
    let digit2: u16 = (opcode >> 8) & 0xF;
    let digit1: u16 = (opcode >> 4) & 0xF;
    let digit0: u16 = opcode & 0xF;
    let nn: u16 = opcode & 0xFF;
    let addr: u16 = opcode & 0xFFF;
    assert(((opcode >> 12) & 0xF) == opcode / 0x1000 && opcode / 0x1000 < 16) by (bit_vector);
    assert(((opcode >> 8) & 0xF) == opcode / 0x100 % 16) by (bit_vector);
    assert(((opcode >> 4) & 0xF) == opcode / 0x10 % 16) by (bit_vector);
    assert((opcode & 0xF) == opcode % 16) by (bit_vector);
    assert((opcode & 0xFF) == opcode % 0x100) by (bit_vector);
    assert((opcode & 0xFFF) == opcode % 0x1000) by (bit_vector);
    ((digit3 as u8, digit2 as u8, digit1 as u8, digit0 as u8), nn as u8, addr)
}

/// Decodes an instruction word.
pub fn decode(opcode: u16) -> (decoded: Option<Instruction>)
    ensures
        decoded == decode_spec(opcode),
        decoded matches Some(instruction) ==> instruction.wf(),
{
    let ((family, x, y, n), nn, addr) = split(opcode);
    match (family, x, y, n) {
        (0x0, 0x0, 0x0, 0x0) => Some(Instruction::Nop),
        (0x0, 0x0, 0xE, 0x0) => Some(Instruction::ClearScreen),
        (0x0, 0x0, 0xE, 0xE) => Some(Instruction::Return),
        (0x1, _, _, _) => Some(Instruction::Jump { addr }),
        (0x2, _, _, _) => Some(Instruction::Call { addr }),
        (0x3, _, _, _) => Some(Instruction::SkipEqImm { x, nn }),
        (0x4, _, _, _) => Some(Instruction::SkipNeImm { x, nn }),
        (0x5, _, _, 0x0) => Some(Instruction::SkipEqReg { x, y }),
        (0x6, _, _, _) => Some(Instruction::LoadImm { x, nn }),
        (0x7, _, _, _) => Some(Instruction::AddImm { x, nn }),
        (0x8, _, _, 0x0) => Some(Instruction::Move { x, y }),
        (0x8, _, _, 0x1) => Some(Instruction::Or { x, y }),
        (0x8, _, _, 0x2) => Some(Instruction::And { x, y }),
        (0x8, _, _, 0x3) => Some(Instruction::Xor { x, y }),
        (0x8, _, _, 0x4) => Some(Instruction::AddReg { x, y }),
        (0x8, _, _, 0x5) => Some(Instruction::SubReg { x, y }),
        (0x8, _, _, 0x6) => Some(Instruction::ShiftRight { x }),
        (0x8, _, _, 0x7) => Some(Instruction::SubFrom { x, y }),
        (0x8, _, _, 0xE) => Some(Instruction::ShiftLeft { x }),
        (0x9, _, _, 0x0) => Some(Instruction::SkipNeReg { x, y }),
        (0xA, _, _, _) => Some(Instruction::LoadIndex { addr }),
        (0xB, _, _, _) => Some(Instruction::JumpOffset { addr }),
        (0xC, _, _, _) => Some(Instruction::Random { x, nn }),
        (0xD, _, _, _) => Some(Instruction::Draw { x, y, n }),
        (_, _, _, _) => None,
    }
}

} // verus!
