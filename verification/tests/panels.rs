use chiprs::emulator::Emulator;
use chiprs::instruction::Instruction;
use chiprs::instruction_list::instruction_lines;
use chiprs::keypad::{key_on_keyboard, pressed_cells, KEYPAD};
use chiprs::keys::ChipKey;

#[test]
fn the_list_shows_ten_addresses_on_each_side() {
    let mut emu = Emulator::new();
    emu.load(&[0x60, 0x0F, 0x12, 0x00]).unwrap();
    let lines = instruction_lines(&emu);
    assert_eq!(lines.len(), 20);
    assert_eq!(lines[0], "  502 > 0000: Nop");
    assert_eq!(lines[10], "> 512 > 600F: SetVxNN { x: 0, nn: 0F }");
    assert_eq!(lines[11], "  513 > 0F12: Unknown");
    assert_eq!(lines[12], "  514 > 1200: Jump { nnn: 200 }");
    assert_eq!(lines[19], "  521 > 0000: Nop");
    assert_eq!(lines.iter().filter(|l| l.starts_with('>')).count(), 1);
}

#[test]
fn the_list_stops_at_the_ends_of_memory() {
    let mut emu = Emulator::new();
    emu.execute(Instruction::Jump { nnn: 3 }, 0).unwrap();
    let lines = instruction_lines(&emu);
    assert_eq!(lines.len(), 13);
    assert_eq!(lines[0], "  0 > F090: Unknown");
    assert_eq!(lines[3], "> 3 > 90F0: SkipVxNeqVy { x: 0, y: F }");
    emu.execute(Instruction::Jump { nnn: 4090 }, 0).unwrap();
    let lines = instruction_lines(&emu);
    assert_eq!(lines.len(), 15);
    assert_eq!(lines[0], "  4080 > 0000: Nop");
    assert_eq!(lines[10], "> 4090 > 0000: Nop");
    assert_eq!(lines[14], "  4094 > 0000: Nop");
    emu.execute(Instruction::Jump { nnn: 4086 }, 0).unwrap();
    assert_eq!(instruction_lines(&emu).len(), 19);
    emu.execute(Instruction::Jump { nnn: 4085 }, 0).unwrap();
    assert_eq!(instruction_lines(&emu).len(), 20);
}

#[test]
fn the_list_is_empty_beyond_memory() {
    let mut emu = Emulator::new();
    emu.execute(Instruction::Jump { nnn: 4105 }, 0).unwrap();
    assert_eq!(instruction_lines(&emu).len(), 0);
    emu.execute(Instruction::Jump { nnn: 4104 }, 0).unwrap();
    let lines = instruction_lines(&emu);
    assert_eq!(lines.len(), 1);
    assert_eq!(lines[0], "  4094 > 0000: Nop");
    emu.execute(Instruction::Jump { nnn: 0xFFFF }, 0).unwrap();
    assert_eq!(instruction_lines(&emu).len(), 0);
}

#[test]
fn the_keypad_shows_the_keys_that_are_down() {
    let mut emu = Emulator::new();
    assert_eq!(pressed_cells(&emu), vec![false; 16]);
    emu.key_pressed(ChipKey::Num1);
    emu.key_pressed(ChipKey::C);
    emu.key_pressed(ChipKey::Num0);
    let cells = pressed_cells(&emu);
    assert_eq!(cells.len(), 16);
    for (idx, ch) in KEYPAD.iter().enumerate() {
        assert_eq!(cells[idx], *ch == '1' || *ch == 'C' || *ch == '0', "key {}", ch);
    }
    assert!(cells[0] && cells[3] && cells[13]);
    emu.key_released(ChipKey::C);
    assert!(!pressed_cells(&emu)[3]);
}

#[test]
fn the_keyboard_stands_for_the_keypad() {
    let expected = [
        ('1', ChipKey::Num1),
        ('2', ChipKey::Num2),
        ('3', ChipKey::Num3),
        ('4', ChipKey::C),
        ('Q', ChipKey::Num4),
        ('W', ChipKey::Num5),
        ('E', ChipKey::Num6),
        ('R', ChipKey::D),
        ('A', ChipKey::Num7),
        ('S', ChipKey::Num8),
        ('D', ChipKey::Num9),
        ('F', ChipKey::E),
        ('Z', ChipKey::A),
        ('X', ChipKey::Num0),
        ('C', ChipKey::B),
        ('V', ChipKey::F),
    ];
    for (c, key) in expected {
        assert_eq!(key_on_keyboard(c), Some(key), "key {}", c);
    }
    assert_eq!(key_on_keyboard('5'), None);
    assert_eq!(key_on_keyboard('q'), None);
    assert_eq!(key_on_keyboard('0'), None);
    assert_eq!(key_on_keyboard(' '), None);
}
