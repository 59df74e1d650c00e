use super::VmError;
use vstd::prelude::*;

verus! {

/// One decoded instruction of the machine.
///
/// Register operands are nibble indices (always below 16), address operands
/// are the low 12 bits of the instruction word, immediate operands its low
/// byte.
#[derive(Debug, Clone, Copy, PartialEq, Eq, Structural)]
pub enum Opcode {
    NoOp,
    ClearScreen,
    Ret,
    Jump(u16),
    Call(u16),
    SkipIfEq(u8, u8),
    SkipIfNeq(u8, u8),
    SkipEqVxVy(u8, u8),
    LoadVx(u8, u8),
    AddVx(u8, u8),
    LoadVxVy(u8, u8),
    Or(u8, u8),
    And(u8, u8),
    Xor(u8, u8),
    Add(u8, u8),
    Sub(u8, u8),
    ShiftR(u8, u8),
    SubN(u8, u8),
    ShiftL(u8, u8),
    SkipNeqVxVy(u8, u8),
    LoadI(u16),
    JumpOffset(u16),
    Rand(u8, u8),
    Display(u8, u8, u8),
    SkipIfKey(u8),
    SkipIfNotKey(u8),
    LoadDelay(u8),
    WaitForKey(u8),
    StoreDelay(u8),
    StoreSound(u8),
    AddI(u8),
    LoadDigit(u8),
    Bcd(u8),
    StoreRegisters(u8),
    LoadRegisters(u8),
}

/// The first (highest) nibble of an instruction word: the opcode family.
pub open spec fn spec_nib1(w: u16) -> u8 {
    (((w & 0xf000) >> 12) as u8)
}

/// The second nibble: the `x` register operand.
pub open spec fn spec_nib2(w: u16) -> u8 {
    (((w & 0x0f00) >> 8) as u8)
}

/// The third nibble: the `y` register operand.
pub open spec fn spec_nib3(w: u16) -> u8 {
    (((w & 0x00f0) >> 4) as u8)
}

/// The fourth (lowest) nibble.
pub open spec fn spec_nib4(w: u16) -> u8 {
    ((w & 0x000f) as u8)
}

/// The 12-bit address operand: the low 12 bits of the word.
pub open spec fn spec_addr(w: u16) -> u16 {
    w & 0x0fff
}

/// The 8-bit immediate operand: the low byte of the word.
pub open spec fn spec_imm(w: u16) -> u8 {
    ((w & 0x00ff) as u8)
}

/// The decode table: the unique instruction a 16-bit word stands for, or
/// `None` when no pattern matches.
///
/// The table is total and deterministic: it is a function of the word alone.
/// Family 0x0 words other than 0x00E0 and 0x00EE decode to an explicit no-op
/// (legacy native-routine calls are inert), never to an error.
pub open spec fn spec_decode(w: u16) -> Option<Opcode> {
    let n1 = spec_nib1(w);
    let x = spec_nib2(w);
    let y = spec_nib3(w);
    let n = spec_nib4(w);
    let nnn = spec_addr(w);
    let kk = spec_imm(w);
    if n1 == 0x0 {
        if x == 0x0 && y == 0xe && n == 0x0 {
            Some(Opcode::ClearScreen)
        } else if x == 0x0 && y == 0xe && n == 0xe {
            Some(Opcode::Ret)
        } else {
            Some(Opcode::NoOp)
        }
    } else if n1 == 0x1 {
        Some(Opcode::Jump(nnn))
    } else if n1 == 0x2 {
        Some(Opcode::Call(nnn))
    } else if n1 == 0x3 {
        Some(Opcode::SkipIfEq(x, kk))
    } else if n1 == 0x4 {
        Some(Opcode::SkipIfNeq(x, kk))
    } else if n1 == 0x5 {
        if n == 0x0 {
            Some(Opcode::SkipEqVxVy(x, y))
        } else {
            None
        }
    } else if n1 == 0x6 {
        Some(Opcode::LoadVx(x, kk))
    } else if n1 == 0x7 {
        Some(Opcode::AddVx(x, kk))
    } else if n1 == 0x8 {
        if n == 0x0 {
            Some(Opcode::LoadVxVy(x, y))
        } else if n == 0x1 {
            Some(Opcode::Or(x, y))
        } else if n == 0x2 {
            Some(Opcode::And(x, y))
        } else if n == 0x3 {
            Some(Opcode::Xor(x, y))
        } else if n == 0x4 {
            Some(Opcode::Add(x, y))
        } else if n == 0x5 {
            Some(Opcode::Sub(x, y))
        } else if n == 0x6 {
            Some(Opcode::ShiftR(x, y))
        } else if n == 0x7 {
            Some(Opcode::SubN(x, y))
        } else if n == 0xe {
            Some(Opcode::ShiftL(x, y))
        } else {
            None
        }
    } else if n1 == 0x9 {
        if n == 0x0 {
            Some(Opcode::SkipNeqVxVy(x, y))
        } else {
            None
        }
    } else if n1 == 0xa {
        Some(Opcode::LoadI(nnn))
    } else if n1 == 0xb {
        Some(Opcode::JumpOffset(nnn))
    } else if n1 == 0xc {
        Some(Opcode::Rand(x, kk))
    } else if n1 == 0xd {
        Some(Opcode::Display(x, y, n))
    } else if n1 == 0xe {
        if y == 0x9 && n == 0xe {
            Some(Opcode::SkipIfKey(x))
        } else if y == 0xa && n == 0x1 {
            Some(Opcode::SkipIfNotKey(x))
        } else {
            None
        }
    } else {
        // n1 == 0xf
        if y == 0x0 && n == 0x7 {
            Some(Opcode::LoadDelay(x))
        } else if y == 0x0 && n == 0xa {
            Some(Opcode::WaitForKey(x))
        } else if y == 0x1 && n == 0x5 {
            Some(Opcode::StoreDelay(x))
        } else if y == 0x1 && n == 0x8 {
            Some(Opcode::StoreSound(x))
        } else if y == 0x1 && n == 0xe {
            Some(Opcode::AddI(x))
        } else if y == 0x2 && n == 0x9 {
            Some(Opcode::LoadDigit(x))
        } else if y == 0x3 && n == 0x3 {
            Some(Opcode::Bcd(x))
        } else if y == 0x5 && n == 0x5 {
            Some(Opcode::StoreRegisters(x))
        } else if y == 0x6 && n == 0x5 {
            Some(Opcode::LoadRegisters(x))
        } else {
            None
        }
    }
}

/// What the decoder returns: the decoded instruction, or an invalid-opcode
/// fault carrying the original word.
pub open spec fn spec_decode_res(w: u16) -> Result<Opcode, VmError> {
    match spec_decode(w) {
        Some(op) => Ok(op),
        None => Err(VmError::InvalidOpcode(w)),
    }
}

impl Opcode {
    /// Register operands are nibbles, address operands fit in 12 bits.
    pub open spec fn operands_bounded(self) -> bool {
        match self {
            Opcode::NoOp => true,
            Opcode::ClearScreen => true,
            Opcode::Ret => true,
            Opcode::Jump(a) => a <= 0xfff,
            Opcode::Call(a) => a <= 0xfff,
            Opcode::SkipIfEq(x, _) => x < 16,
            Opcode::SkipIfNeq(x, _) => x < 16,
            Opcode::SkipEqVxVy(x, y) => x < 16 && y < 16,
            Opcode::LoadVx(x, _) => x < 16,
            Opcode::AddVx(x, _) => x < 16,
            Opcode::LoadVxVy(x, y) => x < 16 && y < 16,
            Opcode::Or(x, y) => x < 16 && y < 16,
            Opcode::And(x, y) => x < 16 && y < 16,
            Opcode::Xor(x, y) => x < 16 && y < 16,
            Opcode::Add(x, y) => x < 16 && y < 16,
            Opcode::Sub(x, y) => x < 16 && y < 16,
            Opcode::ShiftR(x, y) => x < 16 && y < 16,
            Opcode::SubN(x, y) => x < 16 && y < 16,
            Opcode::ShiftL(x, y) => x < 16 && y < 16,
            Opcode::SkipNeqVxVy(x, y) => x < 16 && y < 16,
            Opcode::LoadI(a) => a <= 0xfff,
            Opcode::JumpOffset(a) => a <= 0xfff,
            Opcode::Rand(x, _) => x < 16,
            Opcode::Display(x, y, n) => x < 16 && y < 16 && n < 16,
            Opcode::SkipIfKey(x) => x < 16,
            Opcode::SkipIfNotKey(x) => x < 16,
            Opcode::LoadDelay(x) => x < 16,
            Opcode::WaitForKey(x) => x < 16,
            Opcode::StoreDelay(x) => x < 16,
            Opcode::StoreSound(x) => x < 16,
            Opcode::AddI(x) => x < 16,
            Opcode::LoadDigit(x) => x < 16,
            Opcode::Bcd(x) => x < 16,
            Opcode::StoreRegisters(x) => x < 16,
            Opcode::LoadRegisters(x) => x < 16,
        }
    }

    /// Decodes a big-endian 16-bit instruction word.
    ///
    /// Total over all 65536 words: returns exactly the instruction the decode
    /// table gives, or an invalid-opcode fault carrying the word itself.
    pub fn try_from(value: u16) -> (r: Result<Opcode, VmError>)
        ensures
            r == spec_decode_res(value),
            r matches Ok(op) ==> op.operands_bounded(),
    {
        proof {
            lemma_decode_operands_bounded(value);
            assert(((value & 0xf000) >> 12) < 16) by (bit_vector);
        }
        let nibbles = (
            ((value & 0xf000) >> 12) as u8,
            ((value & 0x0f00) >> 8) as u8,
            ((value & 0x00f0) >> 4) as u8,
            (value & 0x000f) as u8,
        );

        let nnn: u16 = value & 0x0fff;
        let kk: u8 = (value & 0x00ff) as u8;

        match nibbles {
            (0x0, 0x0, 0xe, 0x0) => Ok(Opcode::ClearScreen),
            (0x0, 0x0, 0xe, 0xe) => Ok(Opcode::Ret),
            (0x0, _, _, _) => Ok(Opcode::NoOp),
            (0x1, _, _, _) => Ok(Opcode::Jump(nnn)),
            (0x2, _, _, _) => Ok(Opcode::Call(nnn)),
            (0x3, x, _, _) => Ok(Opcode::SkipIfEq(x, kk)),
            (0x4, x, _, _) => Ok(Opcode::SkipIfNeq(x, kk)),
            (0x5, x, y, 0) => Ok(Opcode::SkipEqVxVy(x, y)),
            (0x6, x, _, _) => Ok(Opcode::LoadVx(x, kk)),
            (0x7, x, _, _) => Ok(Opcode::AddVx(x, kk)),
            (0x8, x, y, 0x0) => Ok(Opcode::LoadVxVy(x, y)),
            (0x8, x, y, 0x1) => Ok(Opcode::Or(x, y)),
            (0x8, x, y, 0x2) => Ok(Opcode::And(x, y)),
            (0x8, x, y, 0x3) => Ok(Opcode::Xor(x, y)),
            (0x8, x, y, 0x4) => Ok(Opcode::Add(x, y)),
            (0x8, x, y, 0x5) => Ok(Opcode::Sub(x, y)),
            (0x8, x, y, 0x6) => Ok(Opcode::ShiftR(x, y)),
            (0x8, x, y, 0x7) => Ok(Opcode::SubN(x, y)),
            (0x8, x, y, 0xe) => Ok(Opcode::ShiftL(x, y)),
            (0x9, x, y, 0) => Ok(Opcode::SkipNeqVxVy(x, y)),
            (0xa, _, _, _) => Ok(Opcode::LoadI(nnn)),
            (0xb, _, _, _) => Ok(Opcode::JumpOffset(nnn)),
            (0xc, x, _, _) => Ok(Opcode::Rand(x, kk)),
            (0xd, x, y, n) => Ok(Opcode::Display(x, y, n)),
            (0xe, x, 0x9, 0xe) => Ok(Opcode::SkipIfKey(x)),
            (0xe, x, 0xa, 0x1) => Ok(Opcode::SkipIfNotKey(x)),
            (0xf, x, 0x0, 0x7) => Ok(Opcode::LoadDelay(x)),
            (0xf, x, 0x0, 0xa) => Ok(Opcode::WaitForKey(x)),
            (0xf, x, 0x1, 0x5) => Ok(Opcode::StoreDelay(x)),
            (0xf, x, 0x1, 0x8) => Ok(Opcode::StoreSound(x)),
            (0xf, x, 0x1, 0xe) => Ok(Opcode::AddI(x)),
            (0xf, x, 0x2, 0x9) => Ok(Opcode::LoadDigit(x)),
            (0xf, x, 0x3, 0x3) => Ok(Opcode::Bcd(x)),
            (0xf, x, 0x5, 0x5) => Ok(Opcode::StoreRegisters(x)),
            (0xf, x, 0x6, 0x5) => Ok(Opcode::LoadRegisters(x)),
            _ => Err(VmError::InvalidOpcode(value)),
        }
    }
}

/// Every instruction the decode table yields has bounded operands: register
/// indices below 16, addresses within 12 bits, sprite heights below 16.
pub proof fn lemma_decode_operands_bounded(w: u16)
    ensures
        spec_decode(w) matches Some(op) ==> op.operands_bounded(),
{
    assert(((w & 0xf000) >> 12) < 16) by (bit_vector);
    assert(((w & 0x0f00) >> 8) < 16) by (bit_vector);
    assert(((w & 0x00f0) >> 4) < 16) by (bit_vector);
    assert((w & 0x000f) < 16) by (bit_vector);
    assert((w & 0x0fff) <= 0xfff) by (bit_vector);
}

} // verus!
