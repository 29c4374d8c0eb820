//! The instruction set and the decoder from two-byte instruction words.

use vstd::prelude::*;

verus! {

pub type Addr = u16;

pub type Register = u8;

pub type Key = u8;

#[derive(Clone, Copy, Debug, PartialEq, Eq, Structural)]
pub enum Instruction {
    Cls,
    Ret,
    Jump(Addr),
    Call(Addr),
    SkipEqConst(Register, u8),
    SkipNotEqConst(Register, u8),
    SkipEqReg(Register, Register),
    SkipNotEqReg(Register, Register),
    LoadConst(Register, u8),
    AddConst(Register, u8),
    LoadReg(Register, Register),
    Or(Register, Register),
    And(Register, Register),
    Xor(Register, Register),
    Add(Register, Register),
    Sub(Register, Register),
    ShiftRight(Register, Register),
    SubN(Register, Register),
    ShiftLeft(Register, Register),
    LoadAddr(Addr),
    JumpOffset(Addr),
    Rand(Register, u8),
    Draw(Register, Register, u8),
    SkipOnKeyPressed(Register),
    SkipKeyNotPressed(Register),
    LoadDelay(Register),
    WaitKeyPress(Register),
    SetDelay(Register),
    SetSound(Register),
    AddAddr(Register),
    SetSpriteAddr(Register),
    BCD(Register),
    Store(Register),
    Load(Register),
}

/// An instruction word that matches no instruction, with its two bytes.
#[derive(Clone, Copy, Debug, PartialEq, Eq, Structural)]
pub struct DecodeError {
    pub upper: u8,
    pub lower: u8,
}

impl Instruction {
    /// Whether every operand is in range: a register below 16, an address
    /// below 4096, a sprite height below 16.
    pub open spec fn well_formed(self) -> bool {
        match self {
            Instruction::Cls | Instruction::Ret => true,
            Instruction::Jump(addr)
            | Instruction::Call(addr)
            | Instruction::LoadAddr(addr)
            | Instruction::JumpOffset(addr) => addr < 0x1000,
            Instruction::SkipEqConst(x, _)
            | Instruction::SkipNotEqConst(x, _)
            | Instruction::LoadConst(x, _)
            | Instruction::AddConst(x, _)
            | Instruction::Rand(x, _) => x < 16,
            Instruction::SkipEqReg(x, y)
            | Instruction::SkipNotEqReg(x, y)
            | Instruction::LoadReg(x, y)
            | Instruction::Or(x, y)
            | Instruction::And(x, y)
            | Instruction::Xor(x, y)
            | Instruction::Add(x, y)
            | Instruction::Sub(x, y)
            | Instruction::ShiftRight(x, y)
            | Instruction::SubN(x, y)
            | Instruction::ShiftLeft(x, y) => x < 16 && y < 16,
            Instruction::Draw(x, y, n) => x < 16 && y < 16 && n < 16,
            Instruction::SkipOnKeyPressed(x)
            | Instruction::SkipKeyNotPressed(x)
            | Instruction::LoadDelay(x)
            | Instruction::WaitKeyPress(x)
            | Instruction::SetDelay(x)
            | Instruction::SetSound(x)
            | Instruction::AddAddr(x)
            | Instruction::SetSpriteAddr(x)
            | Instruction::BCD(x)
            | Instruction::Store(x)
            | Instruction::Load(x) => x < 16,
        }
    }
}

/// The register named by the low nibble of the upper byte.
pub open spec fn reg_upper(upper: u8) -> u8 {
    upper % 16
}

/// The register named by the high nibble of the lower byte.
pub open spec fn reg_lower(lower: u8) -> u8 {
    lower / 16
}

/// The 12-bit address made of the low nibble of the upper byte and the whole
/// lower byte.
pub open spec fn address(upper: u8, lower: u8) -> u16 {
    ((upper % 16) * 256 + lower) as u16
}

/// The register-to-register instruction selected by the low nibble of the
/// lower byte.
pub open spec fn decode_alu(upper: u8, lower: u8) -> Result<Instruction, DecodeError> {
    let x = reg_upper(upper);
    let y = reg_lower(lower);
    let op = lower % 16;
    if op == 0x0 {
        Ok(Instruction::LoadReg(x, y))
    } else if op == 0x1 {
        Ok(Instruction::Or(x, y))
    } else if op == 0x2 {
        Ok(Instruction::And(x, y))
    } else if op == 0x3 {
        Ok(Instruction::Xor(x, y))
    } else if op == 0x4 {
        Ok(Instruction::Add(x, y))
    } else if op == 0x5 {
        Ok(Instruction::Sub(x, y))
    } else if op == 0x6 {
        Ok(Instruction::ShiftRight(x, y))
    } else if op == 0x7 {
        Ok(Instruction::SubN(x, y))
    } else if op == 0xE {
        Ok(Instruction::ShiftLeft(x, y))
    } else {
        Err(DecodeError { upper, lower })
    }
}

/// The timer, keypad and memory instruction selected by the lower byte.
pub open spec fn decode_misc(upper: u8, lower: u8) -> Result<Instruction, DecodeError> {
    let x = reg_upper(upper);
    if lower == 0x07 {
        Ok(Instruction::LoadDelay(x))
    } else if lower == 0x0A {
        Ok(Instruction::WaitKeyPress(x))
    } else if lower == 0x15 {
        Ok(Instruction::SetDelay(x))
    } else if lower == 0x18 {
        Ok(Instruction::SetSound(x))
    } else if lower == 0x1E {
        Ok(Instruction::AddAddr(x))
    } else if lower == 0x29 {
        Ok(Instruction::SetSpriteAddr(x))
    } else if lower == 0x33 {
        Ok(Instruction::BCD(x))
    } else if lower == 0x55 {
        Ok(Instruction::Store(x))
    } else if lower == 0x65 {
        Ok(Instruction::Load(x))
    } else {
        Err(DecodeError { upper, lower })
    }
}

/// The instruction that the word `upper lower` encodes. The high nibble of the
/// upper byte selects the family; families 0, 8, E and F are told apart by the
/// lower byte, and a word that matches nothing there is an error.
pub open spec fn decode(upper: u8, lower: u8) -> Result<Instruction, DecodeError> {
    let family = upper / 16;
    let x = reg_upper(upper);
    let y = reg_lower(lower);
    let addr = address(upper, lower);
    if family == 0x0 {
        if lower == 0xE0 {
            Ok(Instruction::Cls)
        } else if lower == 0xEE {
            Ok(Instruction::Ret)
        } else {
            Err(DecodeError { upper, lower })
        }
    } else if family == 0x1 {
        Ok(Instruction::Jump(addr))
    } else if family == 0x2 {
        Ok(Instruction::Call(addr))
    } else if family == 0x3 {
        Ok(Instruction::SkipEqConst(x, lower))
    } else if family == 0x4 {
        Ok(Instruction::SkipNotEqConst(x, lower))
    } else if family == 0x5 {
        Ok(Instruction::SkipEqReg(x, y))
    } else if family == 0x6 {
        Ok(Instruction::LoadConst(x, lower))
    } else if family == 0x7 {
        Ok(Instruction::AddConst(x, lower))
    } else if family == 0x8 {
        decode_alu(upper, lower)
    } else if family == 0x9 {
        // the low nibble of the lower byte is not examined
        Ok(Instruction::SkipNotEqReg(x, y))
    } else if family == 0xA {
        Ok(Instruction::LoadAddr(addr))
    } else if family == 0xB {
        Ok(Instruction::JumpOffset(addr))
    } else if family == 0xC {
        Ok(Instruction::Rand(x, lower))
    } else if family == 0xD {
        Ok(Instruction::Draw(x, y, lower % 16))
    } else if family == 0xE {
        if lower == 0x9E {
            Ok(Instruction::SkipOnKeyPressed(x))
        } else if lower == 0xA1 {
            Ok(Instruction::SkipKeyNotPressed(x))
        } else {
            Err(DecodeError { upper, lower })
        }
    } else {
        decode_misc(upper, lower)
    }
}

/// Every instruction that the decoder yields has its operands in range.
pub proof fn lemma_decode_well_formed(upper: u8, lower: u8)
    ensures
        decode(upper, lower) matches Ok(instr) ==> instr.well_formed(),
{
}

/// Decodes one instruction word, given as its two bytes in memory order.
pub fn parse(upper: u8, lower: u8) -> (r: Result<Instruction, DecodeError>)
    ensures
        r == decode(upper, lower),
        r matches Ok(instr) ==> instr.well_formed(),
{
    let start: u8 = upper >> 4;
    let low: u8 = lower & 0x0F;
    proof {
        assert(upper >> 4 == upper / 16) by (bit_vector);
        assert(lower & 0x0F == lower % 16) by (bit_vector);
        lemma_decode_well_formed(upper, lower);
    }
    let invalid = Err(DecodeError { upper, lower });
    match start {
        0 => match lower {
            0xE0 => Ok(Instruction::Cls),
            0xEE => Ok(Instruction::Ret),
            _ => invalid,
        },
        1 => Ok(Instruction::Jump(to_address(upper, lower))),
        2 => Ok(Instruction::Call(to_address(upper, lower))),
        3 => Ok(Instruction::SkipEqConst(to_reg_upper(upper), lower)),
        4 => Ok(Instruction::SkipNotEqConst(to_reg_upper(upper), lower)),
        5 => Ok(Instruction::SkipEqReg(to_reg_upper(upper), to_reg_lower(lower))),
        6 => Ok(Instruction::LoadConst(to_reg_upper(upper), lower)),
        7 => Ok(Instruction::AddConst(to_reg_upper(upper), lower)),
        8 => match low {
            0 => Ok(Instruction::LoadReg(to_reg_upper(upper), to_reg_lower(lower))),
            1 => Ok(Instruction::Or(to_reg_upper(upper), to_reg_lower(lower))),
            2 => Ok(Instruction::And(to_reg_upper(upper), to_reg_lower(lower))),
            3 => Ok(Instruction::Xor(to_reg_upper(upper), to_reg_lower(lower))),
            4 => Ok(Instruction::Add(to_reg_upper(upper), to_reg_lower(lower))),
            5 => Ok(Instruction::Sub(to_reg_upper(upper), to_reg_lower(lower))),
            6 => Ok(Instruction::ShiftRight(to_reg_upper(upper), to_reg_lower(lower))),
            7 => Ok(Instruction::SubN(to_reg_upper(upper), to_reg_lower(lower))),
            0xE => Ok(Instruction::ShiftLeft(to_reg_upper(upper), to_reg_lower(lower))),
            _ => invalid,
        },
        9 => Ok(Instruction::SkipNotEqReg(to_reg_upper(upper), to_reg_lower(lower))),
        0xA => Ok(Instruction::LoadAddr(to_address(upper, lower))),
        0xB => Ok(Instruction::JumpOffset(to_address(upper, lower))),
        0xC => Ok(Instruction::Rand(to_reg_upper(upper), lower)),
        0xD => Ok(Instruction::Draw(to_reg_upper(upper), to_reg_lower(lower), low)),
        0xE => match lower {
            0x9E => Ok(Instruction::SkipOnKeyPressed(to_reg_upper(upper))),
            0xA1 => Ok(Instruction::SkipKeyNotPressed(to_reg_upper(upper))),
            _ => invalid,
        },
        _ => match lower {
            0x07 => Ok(Instruction::LoadDelay(to_reg_upper(upper))),
            0x0A => Ok(Instruction::WaitKeyPress(to_reg_upper(upper))),
            0x15 => Ok(Instruction::SetDelay(to_reg_upper(upper))),
            0x18 => Ok(Instruction::SetSound(to_reg_upper(upper))),
            0x1E => Ok(Instruction::AddAddr(to_reg_upper(upper))),
            0x29 => Ok(Instruction::SetSpriteAddr(to_reg_upper(upper))),
            0x33 => Ok(Instruction::BCD(to_reg_upper(upper))),
            0x55 => Ok(Instruction::Store(to_reg_upper(upper))),
            0x65 => Ok(Instruction::Load(to_reg_upper(upper))),
            _ => invalid,
        },
    }
}

pub fn to_reg_upper(upper: u8) -> (r: Register)
    ensures
        r == reg_upper(upper),
{
    assert(upper & 0x0F == upper % 16) by (bit_vector);
    upper & 0x0F
}

pub fn to_reg_lower(lower: u8) -> (r: Register)
    ensures
        r == reg_lower(lower),
{
    assert((lower & 0xF0) >> 4 == lower / 16) by (bit_vector);
    (lower & 0xF0) >> 4
}

pub fn to_address(upper: u8, lower: u8) -> (r: Addr)
    ensures
        r == address(upper, lower),
{
    let high: u16 = (upper & 0x0F) as u16;
    assert(upper & 0x0F == upper % 16) by (bit_vector);
    assert(high << 8 == high * 256) by (bit_vector)
        requires
            high < 16,
    ;
    (high << 8) + (lower as u16)
}

} // verus!
