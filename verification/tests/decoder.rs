use chiprs::instruction::Instruction;
use chiprs::keys::ChipKey;

#[test]
fn every_word_decodes_and_encodes_back() {
    for word in 0..=u16::MAX {
        let instruction = Instruction::from_opcode(word);
        assert_eq!(instruction.opcode(), word, "word {:#06x}", word);
    }
}

#[test]
fn decodes_each_pattern() {
    assert_eq!(Instruction::from_opcode(0x0000), Instruction::Nop);
    assert_eq!(Instruction::from_opcode(0x00E0), Instruction::ClearScreen);
    assert_eq!(Instruction::from_opcode(0x00EE), Instruction::Ret);
    assert_eq!(Instruction::from_opcode(0x1234), Instruction::Jump { nnn: 0x234 });
    assert_eq!(Instruction::from_opcode(0x2ABC), Instruction::Call { nnn: 0xABC });
    assert_eq!(Instruction::from_opcode(0x3A12), Instruction::SkipVxEqNN { x: 0xA, nn: 0x12 });
    assert_eq!(Instruction::from_opcode(0x4B34), Instruction::SkipVxNeqNN { x: 0xB, nn: 0x34 });
    assert_eq!(Instruction::from_opcode(0x5120), Instruction::SkipVxEqVy { x: 1, y: 2 });
    assert_eq!(Instruction::from_opcode(0x6CFF), Instruction::SetVxNN { x: 0xC, nn: 0xFF });
    assert_eq!(Instruction::from_opcode(0x7D01), Instruction::AddVxNN { x: 0xD, nn: 0x01 });
    assert_eq!(Instruction::from_opcode(0x8120), Instruction::SetVxVy { x: 1, y: 2 });
    assert_eq!(Instruction::from_opcode(0x8121), Instruction::OrVxVy { x: 1, y: 2 });
    assert_eq!(Instruction::from_opcode(0x8122), Instruction::AndVxVy { x: 1, y: 2 });
    assert_eq!(Instruction::from_opcode(0x8123), Instruction::XorVxVy { x: 1, y: 2 });
    assert_eq!(Instruction::from_opcode(0x8124), Instruction::AddVxVy { x: 1, y: 2 });
    assert_eq!(Instruction::from_opcode(0x8125), Instruction::SubVxVy { x: 1, y: 2 });
    assert_eq!(Instruction::from_opcode(0x8126), Instruction::RShiftVx { x: 1, y: 2 });
    assert_eq!(Instruction::from_opcode(0x8127), Instruction::SubVyVx { x: 1, y: 2 });
    assert_eq!(Instruction::from_opcode(0x812E), Instruction::LShiftVx { x: 1, y: 2 });
    assert_eq!(Instruction::from_opcode(0x9120), Instruction::SkipVxNeqVy { x: 1, y: 2 });
    assert_eq!(Instruction::from_opcode(0xA123), Instruction::SetI { nnn: 0x123 });
    assert_eq!(Instruction::from_opcode(0xB123), Instruction::JumpPlusV0 { nnn: 0x123 });
    assert_eq!(Instruction::from_opcode(0xC1F0), Instruction::SetVxRnd { x: 1, nn: 0xF0 });
    assert_eq!(Instruction::from_opcode(0xD125), Instruction::Draw { x: 1, y: 2, n: 5 });
    assert_eq!(Instruction::from_opcode(0xE19E), Instruction::SkipVxDown { x: 1 });
    assert_eq!(Instruction::from_opcode(0xE1A1), Instruction::SkipVxUp { x: 1 });
    assert_eq!(Instruction::from_opcode(0xF107), Instruction::SetVxDt { x: 1 });
    assert_eq!(Instruction::from_opcode(0xF10A), Instruction::SetVxKey { x: 1 });
    assert_eq!(Instruction::from_opcode(0xF115), Instruction::SetDtVx { x: 1 });
    assert_eq!(Instruction::from_opcode(0xF118), Instruction::SetStVx { x: 1 });
    assert_eq!(Instruction::from_opcode(0xF11E), Instruction::AddVxToI { x: 1 });
    assert_eq!(Instruction::from_opcode(0xF129), Instruction::SetVxFontToI { x: 1 });
    assert_eq!(Instruction::from_opcode(0xF133), Instruction::SetVxBcdToI { x: 1 });
    assert_eq!(Instruction::from_opcode(0xF155), Instruction::SaveVx { x: 1 });
    assert_eq!(Instruction::from_opcode(0xF165), Instruction::LoadVx { x: 1 });
}

#[test]
fn words_without_a_pattern_are_unknown() {
    assert_eq!(Instruction::from_opcode(0x0001), Instruction::Unknown { opcode: 0x0001 });
    assert_eq!(Instruction::from_opcode(0x00E1), Instruction::Unknown { opcode: 0x00E1 });
    assert_eq!(Instruction::from_opcode(0x0100), Instruction::Unknown { opcode: 0x0100 });
    assert_eq!(Instruction::from_opcode(0x5121), Instruction::Unknown { opcode: 0x5121 });
    assert_eq!(Instruction::from_opcode(0x8128), Instruction::Unknown { opcode: 0x8128 });
    assert_eq!(Instruction::from_opcode(0x9121), Instruction::Unknown { opcode: 0x9121 });
    assert_eq!(Instruction::from_opcode(0xE19F), Instruction::Unknown { opcode: 0xE19F });
    assert_eq!(Instruction::from_opcode(0xF1FF), Instruction::Unknown { opcode: 0xF1FF });
    assert_eq!(Instruction::from_opcode(0xFFFF), Instruction::Unknown { opcode: 0xFFFF });
}

#[test]
fn key_numbers_round_trip() {
    for hex in 0..16u8 {
        let key = ChipKey::from_hex(hex).unwrap();
        assert_eq!(key.to_hex(), hex);
    }
    assert_eq!(ChipKey::from_hex(16), None);
    assert_eq!(ChipKey::from_hex(255), None);
    assert_eq!(ChipKey::from_hex(0xA), Some(ChipKey::A));
    assert_eq!(ChipKey::from_hex(0), Some(ChipKey::Num0));
}

#[test]
fn keys_from_characters() {
    assert_eq!(ChipKey::from_char(&'0'), Some(ChipKey::Num0));
    assert_eq!(ChipKey::from_char(&'9'), Some(ChipKey::Num9));
    assert_eq!(ChipKey::from_char(&'a'), Some(ChipKey::A));
    assert_eq!(ChipKey::from_char(&'A'), Some(ChipKey::A));
    assert_eq!(ChipKey::from_char(&'f'), Some(ChipKey::F));
    assert_eq!(ChipKey::from_char(&'F'), Some(ChipKey::F));
    assert_eq!(ChipKey::from_char(&'g'), None);
    assert_eq!(ChipKey::from_char(&'G'), None);
    assert_eq!(ChipKey::from_char(&' '), None);
    for hex in 0..16u8 {
        let key = ChipKey::from_hex(hex).unwrap();
        assert_eq!(ChipKey::from_char(&key.to_char()), Some(key));
    }
}

#[test]
fn instruction_text_has_word_name_and_operands() {
    assert_eq!(Instruction::Nop.to_string(), "0000: Nop");
    assert_eq!(Instruction::ClearScreen.to_string(), "00E0: ClearScreen");
    assert_eq!(Instruction::Ret.to_string(), "00EE: Ret");
    assert_eq!(Instruction::Jump { nnn: 0x234 }.to_string(), "1234: Jump { nnn: 234 }");
    assert_eq!(Instruction::Call { nnn: 0x00A }.to_string(), "200A: Call { nnn: 00A }");
    assert_eq!(
        Instruction::SetVxNN { x: 0xA, nn: 0x0F }.to_string(),
        "6A0F: SetVxNN { x: A, nn: 0F }"
    );
    assert_eq!(
        Instruction::AddVxVy { x: 1, y: 0xE }.to_string(),
        "81E4: AddVxVy { x: 1, y: E }"
    );
    assert_eq!(
        Instruction::Draw { x: 1, y: 2, n: 5 }.to_string(),
        "D125: Draw { x: 1, y: 2, n: 5 }"
    );
    assert_eq!(Instruction::SetVxKey { x: 3 }.to_string(), "F30A: SetVxKey { x: 3 }");
    assert_eq!(Instruction::Unknown { opcode: 0xFFFF }.to_string(), "FFFF: Unknown");
    assert_eq!(Instruction::Unknown { opcode: 0x0001 }.to_string(), "0001: Unknown");
}

#[test]
fn instruction_text_of_every_word_starts_with_the_word() {
    for word in 0..=u16::MAX {
        let text = Instruction::from_opcode(word).to_string();
        assert!(text.starts_with(&format!("{:04X}: ", word)), "{}", text);
    }
}

#[test]
fn instruction_text_of_oversized_operands() {
    assert_eq!(
        Instruction::SetVxNN { x: 0x1B, nn: 0x01 }.to_string(),
        format!("{:04X}: SetVxNN {{ x: {:X}, nn: {:02X} }}", 0x6000u16 | (0x1Bu16 << 8) | 1, 0x1B, 1)
    );
    assert_eq!(
        Instruction::Jump { nnn: 0xFFFF }.to_string(),
        format!("{:04X}: Jump {{ nnn: {:03X} }}", 0x1000u16 | 0xFFFF, 0xFFFF)
    );
}

#[test]
fn key_names() {
    assert_eq!(ChipKey::Num0.to_string(), "0");
    assert_eq!(ChipKey::Num9.to_string(), "9");
    assert_eq!(ChipKey::A.to_string(), "A");
    assert_eq!(ChipKey::F.to_string(), "F");
}

#[test]
fn encodes_each_shape() {
    assert_eq!(Instruction::Jump { nnn: 0x234 }.opcode(), 0x1234);
    assert_eq!(Instruction::SkipVxEqNN { x: 0xA, nn: 0x12 }.opcode(), 0x3A12);
    assert_eq!(Instruction::SubVyVx { x: 1, y: 2 }.opcode(), 0x8127);
    assert_eq!(Instruction::LoadVx { x: 0xF }.opcode(), 0xFF65);
    assert_eq!(Instruction::Draw { x: 1, y: 2, n: 5 }.opcode(), 0xD125);
    assert_eq!(Instruction::Unknown { opcode: 0x5121 }.opcode(), 0x5121);
}

#[test]
fn finds_the_register_that_does_not_exist() {
    assert_eq!(Instruction::SetVxNN { x: 15, nn: 0 }.find_missing_register(), None);
    assert_eq!(Instruction::SetVxNN { x: 16, nn: 0 }.find_missing_register(), Some(16));
    assert_eq!(Instruction::AddVxVy { x: 3, y: 99 }.find_missing_register(), Some(99));
    assert_eq!(Instruction::AddVxVy { x: 77, y: 99 }.find_missing_register(), Some(77));
    assert_eq!(Instruction::Jump { nnn: 0xFFFF }.find_missing_register(), None);
}

#[test]
fn names_and_operands_of_instructions() {
    assert_eq!(Instruction::Nop.name(), "Nop");
    assert_eq!(Instruction::SetVxBcdToI { x: 1 }.name(), "SetVxBcdToI");
    assert_eq!(Instruction::Unknown { opcode: 1 }.name(), "Unknown");
    assert_eq!(Instruction::Nop.registers(), (None, None));
    assert_eq!(Instruction::SetVxDt { x: 4 }.registers(), (Some(4), None));
    assert_eq!(Instruction::Draw { x: 4, y: 5, n: 6 }.registers(), (Some(4), Some(5)));
    assert_eq!(Instruction::Draw { x: 4, y: 5, n: 6 }.immediates(), (None, None, Some(6)));
    assert_eq!(Instruction::SetI { nnn: 0x123 }.immediates(), (Some(0x123), None, None));
    assert_eq!(Instruction::AddVxNN { x: 1, nn: 9 }.immediates(), (None, Some(9), None));
    assert_eq!(Instruction::SetVxVy { x: 1, y: 2 }.immediates(), (None, None, None));
}

#[test]
fn hexadecimal_and_decimal_digits() {
    let mut text = String::from("x");
    chiprs::hex::push_upper_hex(&mut text, 0xBEEF, 2);
    assert_eq!(text, "xBEEF");
    chiprs::hex::push_upper_hex(&mut text, 0, 0);
    assert_eq!(text, "xBEEF0");
    chiprs::hex::push_upper_hex(&mut text, 0xA, 4);
    assert_eq!(text, "xBEEF0000A");
    let mut text = String::new();
    chiprs::hex::push_decimal(&mut text, 0);
    chiprs::hex::push_decimal(&mut text, 4095);
    chiprs::hex::push_decimal(&mut text, usize::MAX);
    assert_eq!(text, format!("04095{}", usize::MAX));
    let mut text = String::new();
    chiprs::hex::push_upper_hex(&mut text, usize::MAX, 3);
    assert_eq!(text, format!("{:03X}", usize::MAX));
}
