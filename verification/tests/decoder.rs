use chip8::instructions::{parse, to_address, to_reg_lower, to_reg_upper, DecodeError, Instruction};

fn decode_word(word: u16) -> Result<Instruction, DecodeError> {
    parse(((word & 0xFF00) >> 8) as u8, (word & 0x00FF) as u8)
}

#[test]
fn parse_test() {
    assert_eq!(decode_word(0x00E0), Ok(Instruction::Cls));
    assert_eq!(decode_word(0x00EE), Ok(Instruction::Ret));
    assert_eq!(decode_word(0x10EE), Ok(Instruction::Jump(0x0EE)));
    assert_eq!(decode_word(0x23EE), Ok(Instruction::Call(0x3EE)));
    assert_eq!(decode_word(0x33EE), Ok(Instruction::SkipEqConst(3, 0xEE)));
    assert_eq!(decode_word(0x42EE), Ok(Instruction::SkipNotEqConst(2, 0xEE)));
    assert_eq!(decode_word(0x5150), Ok(Instruction::SkipEqReg(1, 5)));
    assert_eq!(decode_word(0x6150), Ok(Instruction::LoadConst(1, 0x50)));
    assert_eq!(decode_word(0x7250), Ok(Instruction::AddConst(2, 0x50)));
    assert_eq!(decode_word(0x80a0), Ok(Instruction::LoadReg(0, 0xa)));
}

#[test]
fn reg_upper() {
    assert_eq!(to_reg_upper(0xF3), 3);
    assert_eq!(to_reg_upper(0xFa), 0xa);
    assert_eq!(to_reg_upper(0xF0), 0x0);
    assert_eq!(to_reg_upper(0xFd), 0xd);
}

#[test]
fn reg_lower() {
    assert_eq!(to_reg_lower(0x3F), 3);
    assert_eq!(to_reg_lower(0xa0), 0xa);
    assert_eq!(to_reg_lower(0x0F), 0x0);
    assert_eq!(to_reg_lower(0xd3), 0xd);
}

#[test]
fn address_joins_low_nibble_and_lower_byte() {
    assert_eq!(to_address(0x1A, 0xBC), 0xABC);
    assert_eq!(to_address(0xF0, 0x00), 0x000);
    assert_eq!(to_address(0x2F, 0xFF), 0xFFF);
}

#[test]
fn decodes_clear_return_jump_and_skip() {
    assert_eq!(decode_word(0x00E0), Ok(Instruction::Cls));
    assert_eq!(decode_word(0x00EE), Ok(Instruction::Ret));
    assert_eq!(decode_word(0x1ABC), Ok(Instruction::Jump(0xABC)));
    assert_eq!(decode_word(0x33EE), Ok(Instruction::SkipEqConst(3, 0xEE)));
}

#[test]
fn undefined_register_operation_is_an_error() {
    assert_eq!(decode_word(0x80a9), Err(DecodeError { upper: 0x80, lower: 0xa9 }));
    assert_eq!(decode_word(0x8008), Err(DecodeError { upper: 0x80, lower: 0x08 }));
    assert_eq!(decode_word(0x812F), Err(DecodeError { upper: 0x81, lower: 0x2F }));
}

#[test]
fn undefined_words_in_other_families_are_errors() {
    assert_eq!(decode_word(0x0000), Err(DecodeError { upper: 0x00, lower: 0x00 }));
    assert_eq!(decode_word(0x00E1), Err(DecodeError { upper: 0x00, lower: 0xE1 }));
    assert_eq!(decode_word(0xE19F), Err(DecodeError { upper: 0xE1, lower: 0x9F }));
    assert_eq!(decode_word(0xE10E), Err(DecodeError { upper: 0xE1, lower: 0x0E }));
    assert_eq!(decode_word(0xF100), Err(DecodeError { upper: 0xF1, lower: 0x00 }));
    assert_eq!(decode_word(0xF1FF), Err(DecodeError { upper: 0xF1, lower: 0xFF }));
}

#[test]
fn decodes_register_operations() {
    assert_eq!(decode_word(0x8AB1), Ok(Instruction::Or(0xA, 0xB)));
    assert_eq!(decode_word(0x8AB2), Ok(Instruction::And(0xA, 0xB)));
    assert_eq!(decode_word(0x8AB3), Ok(Instruction::Xor(0xA, 0xB)));
    assert_eq!(decode_word(0x8014), Ok(Instruction::Add(0, 1)));
    assert_eq!(decode_word(0x8015), Ok(Instruction::Sub(0, 1)));
    assert_eq!(decode_word(0x8126), Ok(Instruction::ShiftRight(1, 2)));
    assert_eq!(decode_word(0x8127), Ok(Instruction::SubN(1, 2)));
    assert_eq!(decode_word(0x812E), Ok(Instruction::ShiftLeft(1, 2)));
}

#[test]
fn decodes_the_remaining_families() {
    assert_eq!(decode_word(0x9120), Ok(Instruction::SkipNotEqReg(1, 2)));
    assert_eq!(decode_word(0xA123), Ok(Instruction::LoadAddr(0x123)));
    assert_eq!(decode_word(0xB123), Ok(Instruction::JumpOffset(0x123)));
    assert_eq!(decode_word(0xC10F), Ok(Instruction::Rand(1, 0x0F)));
    assert_eq!(decode_word(0xD125), Ok(Instruction::Draw(1, 2, 5)));
    assert_eq!(decode_word(0xE49E), Ok(Instruction::SkipOnKeyPressed(4)));
    assert_eq!(decode_word(0xE4A1), Ok(Instruction::SkipKeyNotPressed(4)));
    assert_eq!(decode_word(0xF207), Ok(Instruction::LoadDelay(2)));
    assert_eq!(decode_word(0xF20A), Ok(Instruction::WaitKeyPress(2)));
    assert_eq!(decode_word(0xF215), Ok(Instruction::SetDelay(2)));
    assert_eq!(decode_word(0xF218), Ok(Instruction::SetSound(2)));
    assert_eq!(decode_word(0xF21E), Ok(Instruction::AddAddr(2)));
    assert_eq!(decode_word(0xF229), Ok(Instruction::SetSpriteAddr(2)));
    assert_eq!(decode_word(0xF233), Ok(Instruction::BCD(2)));
    assert_eq!(decode_word(0xF255), Ok(Instruction::Store(2)));
    assert_eq!(decode_word(0xF265), Ok(Instruction::Load(2)));
}

// The skip on unequal registers is told by the family alone: the low nibble
// of the lower byte is not examined.
#[test]
fn skip_on_unequal_registers_ignores_the_low_nibble() {
    assert_eq!(decode_word(0x9127), Ok(Instruction::SkipNotEqReg(1, 2)));
    assert_eq!(decode_word(0x912F), Ok(Instruction::SkipNotEqReg(1, 2)));
}

#[test]
fn every_word_decodes_or_is_reported_with_its_bytes() {
    for word in 0..=0xFFFFu16 {
        let upper = (word >> 8) as u8;
        let lower = word as u8;
        match parse(upper, lower) {
            Ok(_) => {}
            Err(e) => assert_eq!(e, DecodeError { upper, lower }),
        }
    }
}
