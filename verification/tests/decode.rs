use chip8::{Opcode, VmError};

#[test]
fn try_from_short() {
    assert_eq!(Opcode::try_from(0x00e0), Ok(Opcode::ClearScreen));
    assert_eq!(Opcode::try_from(0x00ee), Ok(Opcode::Ret));
    assert_eq!(Opcode::try_from(0x0abc), Ok(Opcode::NoOp));
    assert_eq!(Opcode::try_from(0x1abc), Ok(Opcode::Jump(0x0abc)));
    assert_eq!(Opcode::try_from(0x2abc), Ok(Opcode::Call(0x0abc)));
    assert_eq!(Opcode::try_from(0x3abc), Ok(Opcode::SkipIfEq(0xa, 0xbc)));
    assert_eq!(Opcode::try_from(0x4abc), Ok(Opcode::SkipIfNeq(0xa, 0xbc)));
    assert_eq!(Opcode::try_from(0x5ab0), Ok(Opcode::SkipEqVxVy(0xa, 0xb)));
    assert_eq!(Opcode::try_from(0x6abc), Ok(Opcode::LoadVx(0xa, 0xbc)));
    assert_eq!(Opcode::try_from(0x7abc), Ok(Opcode::AddVx(0xa, 0xbc)));
    assert_eq!(Opcode::try_from(0x8ab0), Ok(Opcode::LoadVxVy(0xa, 0xb)));
    assert_eq!(Opcode::try_from(0x8ab1), Ok(Opcode::Or(0xa, 0xb)));
    assert_eq!(Opcode::try_from(0x8ab2), Ok(Opcode::And(0xa, 0xb)));
    assert_eq!(Opcode::try_from(0x8ab3), Ok(Opcode::Xor(0xa, 0xb)));
    assert_eq!(Opcode::try_from(0x8ab4), Ok(Opcode::Add(0xa, 0xb)));
    assert_eq!(Opcode::try_from(0x8ab5), Ok(Opcode::Sub(0xa, 0xb)));
    assert_eq!(Opcode::try_from(0x8ab6), Ok(Opcode::ShiftR(0xa, 0xb)));
    assert_eq!(Opcode::try_from(0x8ab7), Ok(Opcode::SubN(0xa, 0xb)));
    assert_eq!(Opcode::try_from(0x8abe), Ok(Opcode::ShiftL(0xa, 0xb)));
    assert_eq!(Opcode::try_from(0x9ab0), Ok(Opcode::SkipNeqVxVy(0xa, 0xb)));
    assert_eq!(Opcode::try_from(0xaabc), Ok(Opcode::LoadI(0x0abc)));
    assert_eq!(Opcode::try_from(0xbabc), Ok(Opcode::JumpOffset(0x0abc)));
    assert_eq!(Opcode::try_from(0xcabc), Ok(Opcode::Rand(0xa, 0xbc)));
    assert_eq!(Opcode::try_from(0xdabc), Ok(Opcode::Display(0xa, 0xb, 0xc)));
    assert_eq!(Opcode::try_from(0xea9e), Ok(Opcode::SkipIfKey(0xa)));
    assert_eq!(Opcode::try_from(0xeaa1), Ok(Opcode::SkipIfNotKey(0xa)));
    assert_eq!(Opcode::try_from(0xfa07), Ok(Opcode::LoadDelay(0xa)));
    assert_eq!(Opcode::try_from(0xfa0a), Ok(Opcode::WaitForKey(0xa)));
    assert_eq!(Opcode::try_from(0xfa15), Ok(Opcode::StoreDelay(0xa)));
    assert_eq!(Opcode::try_from(0xfa18), Ok(Opcode::StoreSound(0xa)));
    assert_eq!(Opcode::try_from(0xfa1e), Ok(Opcode::AddI(0xa)));
    assert_eq!(Opcode::try_from(0xfa29), Ok(Opcode::LoadDigit(0xa)));
    assert_eq!(Opcode::try_from(0xfa33), Ok(Opcode::Bcd(0xa)));
    assert_eq!(Opcode::try_from(0xfa55), Ok(Opcode::StoreRegisters(0xa)));
    assert_eq!(Opcode::try_from(0xfa65), Ok(Opcode::LoadRegisters(0xa)));
}

#[test]
fn try_from_rejects_unmatched_patterns() {
    for word in [0x5ab1u16, 0x5abf, 0x8ab8, 0x8abd, 0x8abf, 0x9ab1, 0x9abf, 0xea9f, 0xeaa2,
        0xea00, 0xfa00, 0xfa08, 0xfa16, 0xfa30, 0xfa56, 0xfa66, 0xffff] {
        assert_eq!(Opcode::try_from(word), Err(VmError::InvalidOpcode(word)));
    }
}

#[test]
fn family_zero_words_decode_to_noop() {
    // Every 0x0NNN word other than 0x00E0 and 0x00EE is an inert legacy
    // native-routine call, never a decode error.
    assert_eq!(Opcode::try_from(0x0000), Ok(Opcode::NoOp));
    assert_eq!(Opcode::try_from(0x00e1), Ok(Opcode::NoOp));
    assert_eq!(Opcode::try_from(0x00ef), Ok(Opcode::NoOp));
    assert_eq!(Opcode::try_from(0x0123), Ok(Opcode::NoOp));
    assert_eq!(Opcode::try_from(0x0fff), Ok(Opcode::NoOp));
}
