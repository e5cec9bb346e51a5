use chiprs::emulator::Emulator;
use chiprs::error::EmuError;
use chiprs::fontset::FONTSET;
use chiprs::instruction::Instruction;
use chiprs::keys::ChipKey;

fn machine_with(rom: &[u8]) -> Emulator {
    let mut emu = Emulator::new();
    emu.load(rom).unwrap();
    emu
}

fn lit(emu: &Emulator, x: usize, y: usize) -> bool {
    emu.get_screen()[x + 64 * y]
}

#[test]
fn a_new_machine_is_blank_but_for_the_font() {
    let emu = Emulator::new();
    assert_eq!(emu.counter(), 0x200);
    assert_eq!(emu.index(), 0);
    assert_eq!(emu.registers(), &[0u8; 16]);
    assert_eq!(emu.stack_depth(), 0);
    assert_eq!(emu.delay_timer(), 0);
    assert_eq!(emu.sound_timer(), 0);
    assert_eq!(emu.waiting_register(), None);
    assert!(!emu.is_paused());
    assert!(emu.get_screen().iter().all(|p| !*p));
    assert_eq!(&emu.memory()[..80], &FONTSET[..]);
    assert!(emu.memory()[80..].iter().all(|b| *b == 0));
}

#[test]
fn add_with_carry() {
    let mut emu = machine_with(&[0x60, 0xFF, 0x61, 0x01, 0x80, 0x14]);
    for _ in 0..3 {
        emu.next_with(0).unwrap();
    }
    assert_eq!(emu.registers()[0], 0x00);
    assert_eq!(emu.registers()[0xF], 1);
    assert_eq!(emu.counter(), 0x206);
}

#[test]
fn add_without_carry_clears_the_flag() {
    let mut emu = machine_with(&[0x6F, 0x01, 0x60, 0x10, 0x61, 0x22, 0x80, 0x14]);
    for _ in 0..4 {
        emu.next_with(0).unwrap();
    }
    assert_eq!(emu.registers()[0], 0x32);
    assert_eq!(emu.registers()[0xF], 0);
}

#[test]
fn subtract_with_borrow_clears_the_flag() {
    let mut emu = machine_with(&[0x60, 0x01, 0x61, 0x02, 0x80, 0x15]);
    for _ in 0..3 {
        emu.next_with(0).unwrap();
    }
    assert_eq!(emu.registers()[0], 0xFF);
    assert_eq!(emu.registers()[0xF], 0);
}

#[test]
fn subtract_without_borrow_sets_the_flag() {
    let mut emu = machine_with(&[0x60, 0x05, 0x61, 0x02, 0x80, 0x15]);
    for _ in 0..3 {
        emu.next_with(0).unwrap();
    }
    assert_eq!(emu.registers()[0], 0x03);
    assert_eq!(emu.registers()[0xF], 1);
}

#[test]
fn reverse_subtract() {
    let mut emu = Emulator::new();
    emu.execute(Instruction::SetVxNN { x: 0, nn: 2 }, 0).unwrap();
    emu.execute(Instruction::SetVxNN { x: 1, nn: 7 }, 0).unwrap();
    emu.execute(Instruction::SubVyVx { x: 0, y: 1 }, 0).unwrap();
    assert_eq!(emu.registers()[0], 5);
    assert_eq!(emu.registers()[0xF], 1);
    emu.execute(Instruction::SetVxNN { x: 0, nn: 9 }, 0).unwrap();
    emu.execute(Instruction::SubVyVx { x: 0, y: 1 }, 0).unwrap();
    assert_eq!(emu.registers()[0], 0xFE);
    assert_eq!(emu.registers()[0xF], 0);
}

#[test]
fn the_flag_wins_where_the_result_goes_to_vf() {
    let mut emu = Emulator::new();
    emu.execute(Instruction::SetVxNN { x: 0xF, nn: 0xFF }, 0).unwrap();
    emu.execute(Instruction::SetVxNN { x: 1, nn: 0x02 }, 0).unwrap();
    emu.execute(Instruction::AddVxVy { x: 0xF, y: 1 }, 0).unwrap();
    assert_eq!(emu.registers()[0xF], 1);
}

#[test]
fn shift_right_takes_vy_and_reports_the_low_bit() {
    let mut emu = Emulator::new();
    emu.execute(Instruction::SetVxNN { x: 0, nn: 0xAA }, 0).unwrap();
    emu.execute(Instruction::SetVxNN { x: 1, nn: 0b0000_0011 }, 0).unwrap();
    emu.execute(Instruction::RShiftVx { x: 0, y: 1 }, 0).unwrap();
    assert_eq!(emu.registers()[0], 0b0000_0001);
    assert_eq!(emu.registers()[1], 0b0000_0011);
    assert_eq!(emu.registers()[0xF], 1);
}

#[test]
fn shift_left_takes_vy_and_reports_the_high_bit() {
    let mut emu = Emulator::new();
    emu.execute(Instruction::SetVxNN { x: 1, nn: 0b1000_0001 }, 0).unwrap();
    emu.execute(Instruction::LShiftVx { x: 0, y: 1 }, 0).unwrap();
    assert_eq!(emu.registers()[0], 0b0000_0010);
    assert_eq!(emu.registers()[0xF], 1);
    emu.execute(Instruction::SetVxNN { x: 1, nn: 0b0100_0001 }, 0).unwrap();
    emu.execute(Instruction::LShiftVx { x: 0, y: 1 }, 0).unwrap();
    assert_eq!(emu.registers()[0], 0b1000_0010);
    assert_eq!(emu.registers()[0xF], 0);
}

#[test]
fn bitwise_operations_leave_the_flag() {
    let mut emu = Emulator::new();
    emu.execute(Instruction::SetVxNN { x: 0xF, nn: 7 }, 0).unwrap();
    emu.execute(Instruction::SetVxNN { x: 0, nn: 0b1100 }, 0).unwrap();
    emu.execute(Instruction::SetVxNN { x: 1, nn: 0b1010 }, 0).unwrap();
    emu.execute(Instruction::OrVxVy { x: 0, y: 1 }, 0).unwrap();
    assert_eq!(emu.registers()[0], 0b1110);
    emu.execute(Instruction::AndVxVy { x: 0, y: 1 }, 0).unwrap();
    assert_eq!(emu.registers()[0], 0b1010);
    emu.execute(Instruction::SetVxNN { x: 0, nn: 0b1100 }, 0).unwrap();
    emu.execute(Instruction::XorVxVy { x: 0, y: 1 }, 0).unwrap();
    assert_eq!(emu.registers()[0], 0b0110);
    assert_eq!(emu.registers()[0xF], 7);
}

#[test]
fn add_immediate_wraps_and_leaves_the_flag() {
    let mut emu = Emulator::new();
    emu.execute(Instruction::SetVxNN { x: 2, nn: 0xF0 }, 0).unwrap();
    emu.execute(Instruction::AddVxNN { x: 2, nn: 0x20 }, 0).unwrap();
    assert_eq!(emu.registers()[2], 0x10);
    assert_eq!(emu.registers()[0xF], 0);
}

#[test]
fn drawing_twice_puts_the_pixels_out_and_reports_a_collision() {
    // I = 0x20A, V0 = 8, V1 = 4, draw one row at (V0, V1), twice; the sprite is 0xFF.
    let mut emu = machine_with(&[
        0xA2, 0x0A, 0x60, 0x08, 0x61, 0x04, 0xD0, 0x11, 0xD0, 0x11, 0xFF,
    ]);
    for _ in 0..4 {
        emu.next_with(0).unwrap();
    }
    for x in 0..64 {
        assert_eq!(lit(&emu, x, 4), (8..16).contains(&x));
    }
    assert_eq!(emu.get_screen().iter().filter(|p| **p).count(), 8);
    assert_eq!(emu.registers()[0xF], 0);
    emu.next_with(0).unwrap();
    assert!(emu.get_screen().iter().all(|p| !*p));
    assert_eq!(emu.registers()[0xF], 1);
}

#[test]
fn drawing_wraps_around_the_right_edge() {
    let mut emu = Emulator::new();
    emu.load(&[0xFF]).unwrap();
    emu.execute(Instruction::SetI { nnn: 0x200 }, 0).unwrap();
    emu.execute(Instruction::SetVxNN { x: 0, nn: 60 }, 0).unwrap();
    emu.execute(Instruction::SetVxNN { x: 1, nn: 3 }, 0).unwrap();
    emu.execute(Instruction::Draw { x: 0, y: 1, n: 1 }, 0).unwrap();
    for x in 0..64 {
        assert_eq!(lit(&emu, x, 3), x >= 60 || x <= 3, "column {}", x);
    }
    assert_eq!(emu.get_screen().iter().filter(|p| **p).count(), 8);
    assert_eq!(emu.registers()[0xF], 0);
}

#[test]
fn drawing_wraps_around_the_bottom_edge_and_large_coordinates() {
    let mut emu = Emulator::new();
    emu.load(&[0x80, 0x40]).unwrap();
    emu.execute(Instruction::SetI { nnn: 0x200 }, 0).unwrap();
    emu.execute(Instruction::SetVxNN { x: 0, nn: 64 + 5 }, 0).unwrap();
    emu.execute(Instruction::SetVxNN { x: 1, nn: 31 }, 0).unwrap();
    emu.execute(Instruction::Draw { x: 0, y: 1, n: 2 }, 0).unwrap();
    assert!(lit(&emu, 5, 31));
    assert!(lit(&emu, 6, 0));
    assert_eq!(emu.get_screen().iter().filter(|p| **p).count(), 2);
}

#[test]
fn drawing_the_most_significant_bit_first() {
    let mut emu = Emulator::new();
    emu.load(&[0b1010_0001]).unwrap();
    emu.execute(Instruction::SetI { nnn: 0x200 }, 0).unwrap();
    emu.execute(Instruction::Draw { x: 0, y: 0, n: 1 }, 0).unwrap();
    let row: Vec<bool> = (0..8).map(|x| lit(&emu, x, 0)).collect();
    assert_eq!(row, vec![true, false, true, false, false, false, false, true]);
}

#[test]
fn drawing_a_glyph_of_the_font() {
    let mut emu = Emulator::new();
    emu.execute(Instruction::SetVxNN { x: 2, nn: 0xA }, 0).unwrap();
    emu.execute(Instruction::SetVxFontToI { x: 2 }, 0).unwrap();
    assert_eq!(emu.index(), 50);
    emu.execute(Instruction::Draw { x: 0, y: 0, n: 5 }, 0).unwrap();
    let glyph = [0xF0u8, 0x90, 0xF0, 0x90, 0x90];
    for (y, bits) in glyph.iter().enumerate() {
        for x in 0..8 {
            assert_eq!(lit(&emu, x, y), bits & (0x80 >> x) != 0);
        }
    }
}

#[test]
fn clear_screen_puts_every_pixel_out() {
    let mut emu = Emulator::new();
    emu.execute(Instruction::Draw { x: 0, y: 0, n: 5 }, 0).unwrap();
    assert!(emu.get_screen().iter().any(|p| *p));
    emu.execute(Instruction::ClearScreen, 0).unwrap();
    assert!(emu.get_screen().iter().all(|p| !*p));
}

#[test]
fn binary_coded_decimal() {
    let mut emu = Emulator::new();
    emu.execute(Instruction::SetVxNN { x: 4, nn: 156 }, 0).unwrap();
    emu.execute(Instruction::SetI { nnn: 0x300 }, 0).unwrap();
    emu.execute(Instruction::SetVxBcdToI { x: 4 }, 0).unwrap();
    assert_eq!(emu.memory()[0x300], 1);
    assert_eq!(emu.memory()[0x301], 5);
    assert_eq!(emu.memory()[0x302], 6);
    assert_eq!(emu.index(), 0x300);
    emu.execute(Instruction::SetVxNN { x: 4, nn: 7 }, 0).unwrap();
    emu.execute(Instruction::SetVxBcdToI { x: 4 }, 0).unwrap();
    assert_eq!(&emu.memory()[0x300..0x303], &[0, 0, 7]);
    emu.execute(Instruction::SetVxNN { x: 4, nn: 255 }, 0).unwrap();
    emu.execute(Instruction::SetVxBcdToI { x: 4 }, 0).unwrap();
    assert_eq!(&emu.memory()[0x300..0x303], &[2, 5, 5]);
}

#[test]
fn save_and_load_registers_leave_the_index() {
    let mut emu = Emulator::new();
    for x in 0..4usize {
        emu.execute(Instruction::SetVxNN { x, nn: 10 + x as u8 }, 0).unwrap();
    }
    emu.execute(Instruction::SetI { nnn: 0x400 }, 0).unwrap();
    emu.execute(Instruction::SaveVx { x: 2 }, 0).unwrap();
    assert_eq!(&emu.memory()[0x400..0x404], &[10, 11, 12, 0]);
    assert_eq!(emu.index(), 0x400);
    for x in 0..4usize {
        emu.execute(Instruction::SetVxNN { x, nn: 0 }, 0).unwrap();
    }
    emu.execute(Instruction::LoadVx { x: 1 }, 0).unwrap();
    assert_eq!(&emu.registers()[..4], &[10, 11, 0, 0]);
    assert_eq!(emu.index(), 0x400);
}

#[test]
fn the_wait_for_a_key() {
    let mut emu = machine_with(&[0xF3, 0x0A, 0x63, 0x01]);
    emu.next_with(0).unwrap();
    assert_eq!(emu.waiting_register(), Some(3));
    let at = emu.counter();
    assert_eq!(at, 0x202);
    for _ in 0..5 {
        emu.next_with(0).unwrap();
        emu.next().unwrap();
        emu.tick().unwrap();
        assert_eq!(emu.counter(), at);
    }
    emu.key_pressed(ChipKey::A);
    assert_eq!(emu.waiting_register(), Some(3));
    emu.next_with(0).unwrap();
    assert_eq!(emu.counter(), at);
    emu.key_released(ChipKey::A);
    assert_eq!(emu.waiting_register(), None);
    assert_eq!(emu.registers()[3], 0xA);
    assert!(!emu.is_key_down(ChipKey::A));
    emu.next_with(0).unwrap();
    assert_eq!(emu.counter(), at + 2);
    assert_eq!(emu.registers()[3], 0x01);
}

#[test]
fn a_release_without_a_wait_only_lets_the_key_up() {
    let mut emu = Emulator::new();
    emu.key_pressed(ChipKey::Num5);
    assert!(emu.is_key_down(ChipKey::Num5));
    emu.key_pressed(ChipKey::Num5);
    assert!(emu.is_key_down(ChipKey::Num5));
    emu.key_released(ChipKey::Num5);
    assert!(!emu.is_key_down(ChipKey::Num5));
    assert_eq!(emu.registers(), &[0u8; 16]);
}

#[test]
fn key_states_lists_all_sixteen_keys() {
    let mut emu = Emulator::new();
    emu.key_pressed(ChipKey::Num0);
    emu.key_pressed(ChipKey::F);
    let states = emu.key_states();
    assert_eq!(states.len(), 16);
    for k in 0..16u8 {
        assert_eq!(states.get(&k), Some(&(k == 0 || k == 15)));
    }
    assert_eq!(states.get(&16), None);
}

#[test]
fn skips_on_keys() {
    let mut emu = Emulator::new();
    emu.execute(Instruction::SetVxNN { x: 0, nn: 7 }, 0).unwrap();
    emu.execute(Instruction::SkipVxDown { x: 0 }, 0).unwrap();
    assert_eq!(emu.counter(), 0x200);
    emu.execute(Instruction::SkipVxUp { x: 0 }, 0).unwrap();
    assert_eq!(emu.counter(), 0x202);
    emu.key_pressed(ChipKey::Num7);
    emu.execute(Instruction::SkipVxDown { x: 0 }, 0).unwrap();
    assert_eq!(emu.counter(), 0x204);
    emu.execute(Instruction::SkipVxUp { x: 0 }, 0).unwrap();
    assert_eq!(emu.counter(), 0x204);
}

#[test]
fn skips_on_values() {
    let mut emu = Emulator::new();
    emu.execute(Instruction::SetVxNN { x: 0, nn: 7 }, 0).unwrap();
    emu.execute(Instruction::SetVxNN { x: 1, nn: 7 }, 0).unwrap();
    emu.execute(Instruction::SkipVxEqNN { x: 0, nn: 7 }, 0).unwrap();
    assert_eq!(emu.counter(), 0x202);
    emu.execute(Instruction::SkipVxEqNN { x: 0, nn: 8 }, 0).unwrap();
    assert_eq!(emu.counter(), 0x202);
    emu.execute(Instruction::SkipVxNeqNN { x: 0, nn: 8 }, 0).unwrap();
    assert_eq!(emu.counter(), 0x204);
    emu.execute(Instruction::SkipVxNeqNN { x: 0, nn: 7 }, 0).unwrap();
    assert_eq!(emu.counter(), 0x204);
    emu.execute(Instruction::SkipVxEqVy { x: 0, y: 1 }, 0).unwrap();
    assert_eq!(emu.counter(), 0x206);
    emu.execute(Instruction::SkipVxNeqVy { x: 0, y: 1 }, 0).unwrap();
    assert_eq!(emu.counter(), 0x206);
}

#[test]
fn timers_go_down_to_zero_and_stay() {
    let mut emu = Emulator::new();
    assert!(!emu.tick_timers());
    assert_eq!(emu.delay_timer(), 0);
    assert_eq!(emu.sound_timer(), 0);
    emu.execute(Instruction::SetVxNN { x: 0, nn: 2 }, 0).unwrap();
    emu.execute(Instruction::SetDtVx { x: 0 }, 0).unwrap();
    emu.execute(Instruction::SetVxNN { x: 0, nn: 1 }, 0).unwrap();
    emu.execute(Instruction::SetStVx { x: 0 }, 0).unwrap();
    assert_eq!(emu.delay_timer(), 2);
    assert_eq!(emu.sound_timer(), 1);
    assert!(emu.tick_timers());
    assert_eq!(emu.delay_timer(), 1);
    assert_eq!(emu.sound_timer(), 0);
    assert!(!emu.tick_timers());
    assert_eq!(emu.delay_timer(), 0);
    assert_eq!(emu.sound_timer(), 0);
    assert!(!emu.tick_timers());
    assert_eq!(emu.delay_timer(), 0);
    assert_eq!(emu.sound_timer(), 0);
    emu.execute(Instruction::SetVxDt { x: 5 }, 0).unwrap();
    assert_eq!(emu.registers()[5], 0);
}

#[test]
fn call_and_return() {
    // 0x200: call 0x206; 0x202: set V0 = 1; 0x206: return
    let mut emu = machine_with(&[0x22, 0x06, 0x60, 0x01, 0x00, 0x00, 0x00, 0xEE]);
    emu.next_with(0).unwrap();
    assert_eq!(emu.counter(), 0x206);
    assert_eq!(emu.stack_depth(), 1);
    emu.next_with(0).unwrap();
    assert_eq!(emu.counter(), 0x202);
    assert_eq!(emu.stack_depth(), 0);
    emu.next_with(0).unwrap();
    assert_eq!(emu.registers()[0], 1);
}

#[test]
fn the_stack_holds_sixteen_calls() {
    let mut emu = Emulator::new();
    for depth in 0..16 {
        assert_eq!(emu.stack_depth(), depth);
        emu.execute(Instruction::Call { nnn: 0x300 }, 0).unwrap();
    }
    let registers = *emu.registers();
    assert_eq!(emu.execute(Instruction::Call { nnn: 0x400 }, 0), Err(EmuError::StackOverflow));
    assert_eq!(emu.stack_depth(), 16);
    assert_eq!(emu.counter(), 0x300);
    assert_eq!(emu.registers(), &registers);
    for _ in 0..16 {
        emu.execute(Instruction::Ret, 0).unwrap();
    }
    assert_eq!(emu.counter(), 0x200);
    assert_eq!(emu.execute(Instruction::Ret, 0), Err(EmuError::StackUnderflow));
    assert_eq!(emu.counter(), 0x200);
}

#[test]
fn jumps() {
    let mut emu = Emulator::new();
    emu.execute(Instruction::Jump { nnn: 0x345 }, 0).unwrap();
    assert_eq!(emu.counter(), 0x345);
    emu.execute(Instruction::SetVxNN { x: 0, nn: 0x10 }, 0).unwrap();
    emu.execute(Instruction::JumpPlusV0 { nnn: 0xFFF }, 0).unwrap();
    assert_eq!(emu.counter(), 0x100F);
}

#[test]
fn index_register_arithmetic() {
    let mut emu = Emulator::new();
    emu.execute(Instruction::SetI { nnn: 0xFFF }, 0).unwrap();
    emu.execute(Instruction::SetVxNN { x: 0, nn: 0xFF }, 0).unwrap();
    emu.execute(Instruction::AddVxToI { x: 0 }, 0).unwrap();
    assert_eq!(emu.index(), 0x10FE);
    emu.execute(Instruction::SetI { nnn: 0xFFFF }, 0).unwrap();
    emu.execute(Instruction::AddVxToI { x: 0 }, 0).unwrap();
    assert_eq!(emu.index(), 0x00FE);
    emu.execute(Instruction::SetVxFontToI { x: 0 }, 0).unwrap();
    assert_eq!(emu.index(), 255 * 5);
}

#[test]
fn an_unknown_operation_is_fatal_and_changes_nothing() {
    let mut emu = machine_with(&[0x60, 0x01, 0xFF, 0xFF]);
    emu.next_with(0).unwrap();
    assert_eq!(emu.next_with(0), Err(EmuError::UnknownOpcode { opcode: 0xFFFF }));
    assert_eq!(emu.counter(), 0x202);
    assert_eq!(emu.registers()[0], 1);
    assert_eq!(emu.next(), Err(EmuError::UnknownOpcode { opcode: 0xFFFF }));
    assert_eq!(emu.tick(), Err(EmuError::UnknownOpcode { opcode: 0xFFFF }));
    assert_eq!(emu.counter(), 0x202);
}

#[test]
fn memory_beyond_the_end_is_refused() {
    let mut emu = Emulator::new();
    emu.execute(Instruction::SetI { nnn: 0xFFE }, 0).unwrap();
    assert_eq!(
        emu.execute(Instruction::SetVxBcdToI { x: 0 }, 0),
        Err(EmuError::MemoryOutOfRange { address: 0xFFE })
    );
    emu.execute(Instruction::SetI { nnn: 0xFFD }, 0).unwrap();
    assert_eq!(emu.execute(Instruction::SetVxBcdToI { x: 0 }, 0), Ok(()));
    emu.execute(Instruction::SetI { nnn: 0xFFF }, 0).unwrap();
    assert_eq!(emu.execute(Instruction::SaveVx { x: 0 }, 0), Ok(()));
    assert_eq!(
        emu.execute(Instruction::SaveVx { x: 1 }, 0),
        Err(EmuError::MemoryOutOfRange { address: 0xFFF })
    );
    assert_eq!(
        emu.execute(Instruction::LoadVx { x: 1 }, 0),
        Err(EmuError::MemoryOutOfRange { address: 0xFFF })
    );
    assert_eq!(emu.execute(Instruction::Draw { x: 0, y: 0, n: 1 }, 0), Ok(()));
    assert_eq!(
        emu.execute(Instruction::Draw { x: 0, y: 0, n: 2 }, 0),
        Err(EmuError::MemoryOutOfRange { address: 0xFFF })
    );
    emu.execute(Instruction::Jump { nnn: 0xFFF }, 0).unwrap();
    assert_eq!(emu.next_with(0), Err(EmuError::MemoryOutOfRange { address: 0xFFF }));
    assert_eq!(emu.counter(), 0xFFF);
}

#[test]
fn registers_and_keys_that_do_not_exist_are_refused() {
    let mut emu = Emulator::new();
    assert_eq!(
        emu.execute(Instruction::SetVxNN { x: 16, nn: 1 }, 0),
        Err(EmuError::RegisterOutOfRange { index: 16 })
    );
    assert_eq!(
        emu.execute(Instruction::AddVxVy { x: 1, y: 20 }, 0),
        Err(EmuError::RegisterOutOfRange { index: 20 })
    );
    emu.execute(Instruction::SetVxNN { x: 0, nn: 16 }, 0).unwrap();
    assert_eq!(
        emu.execute(Instruction::SkipVxDown { x: 0 }, 0),
        Err(EmuError::KeyOutOfRange { key: 16 })
    );
    assert_eq!(
        emu.execute(Instruction::SkipVxUp { x: 0 }, 0),
        Err(EmuError::KeyOutOfRange { key: 16 })
    );
    assert_eq!(emu.counter(), 0x200);
}

#[test]
fn an_image_that_does_not_fit_is_refused() {
    let mut emu = machine_with(&[1, 2, 3]);
    let too_large = vec![0xAAu8; 4096 - 0x200 + 1];
    assert_eq!(emu.load(&too_large), Err(EmuError::RomTooLarge { len: 3585 }));
    assert_eq!(&emu.memory()[0x200..0x204], &[1, 2, 3, 0]);
    let largest = vec![0xBBu8; 4096 - 0x200];
    assert_eq!(emu.load(&largest), Ok(()));
    assert!(emu.memory()[0x200..].iter().all(|b| *b == 0xBB));
    assert_eq!(&emu.memory()[..80], &FONTSET[..]);
    emu.reset();
    assert!(emu.memory()[0x200..].iter().all(|b| *b == 0xBB));
}

#[test]
fn loading_keeps_what_it_does_not_cover() {
    let mut emu = machine_with(&[1, 2, 3, 4]);
    emu.load(&[9, 9]).unwrap();
    assert_eq!(&emu.memory()[0x200..0x205], &[9, 9, 3, 4, 0]);
    emu.reset();
    assert_eq!(&emu.memory()[0x200..0x205], &[9, 9, 0, 0, 0]);
}

#[test]
fn reset_restores_everything_but_the_pause() {
    let mut emu = machine_with(&[0x60, 0x07, 0xA3, 0x00, 0xF0, 0x33, 0x22, 0x08, 0xD0, 0x05, 0xF1, 0x0A]);
    emu.pause_or_resume();
    for _ in 0..6 {
        emu.next_with(0).unwrap();
    }
    emu.key_pressed(ChipKey::B);
    assert_eq!(emu.waiting_register(), Some(1));
    emu.reset();
    assert!(emu.is_paused());
    assert_eq!(emu.counter(), 0x200);
    assert_eq!(emu.index(), 0);
    assert_eq!(emu.registers(), &[0u8; 16]);
    assert_eq!(emu.stack_depth(), 0);
    assert_eq!(emu.waiting_register(), None);
    assert!(!emu.is_key_down(ChipKey::B));
    assert!(emu.get_screen().iter().all(|p| !*p));
    assert_eq!(&emu.memory()[..80], &FONTSET[..]);
    assert_eq!(&emu.memory()[0x200..0x202], &[0x60, 0x07]);
    assert_eq!(&emu.memory()[0x300..0x303], &[0, 0, 0]);
}

#[test]
fn a_paused_machine_does_not_tick() {
    let mut emu = machine_with(&[0x60, 0x07, 0x61, 0x08]);
    emu.pause_or_resume();
    assert!(emu.is_paused());
    emu.tick().unwrap();
    emu.tick_with(0).unwrap();
    assert_eq!(emu.counter(), 0x200);
    emu.next().unwrap();
    assert_eq!(emu.counter(), 0x202);
    emu.pause_or_resume();
    assert!(!emu.is_paused());
    emu.tick().unwrap();
    assert_eq!(emu.counter(), 0x204);
    assert_eq!(emu.registers()[1], 8);
}

#[test]
fn stepping_back_executes_the_instruction_before_again() {
    let mut emu = machine_with(&[0x70, 0x01, 0x70, 0x10]);
    emu.next_with(0).unwrap();
    emu.next_with(0).unwrap();
    assert_eq!(emu.registers()[0], 0x11);
    assert_eq!(emu.counter(), 0x204);
    emu.previous_with(0).unwrap();
    assert_eq!(emu.counter(), 0x202);
    assert_eq!(emu.registers()[0], 0x12);
    emu.next_with(0).unwrap();
    assert_eq!(emu.counter(), 0x204);
    assert_eq!(emu.registers()[0], 0x22);
    emu.previous().unwrap();
    assert_eq!(emu.counter(), 0x202);
    assert_eq!(emu.registers()[0], 0x23);
}

#[test]
fn stepping_back_below_the_start_of_memory_is_refused() {
    let mut emu = Emulator::new();
    emu.execute(Instruction::Jump { nnn: 3 }, 0).unwrap();
    assert_eq!(emu.previous_with(0), Err(EmuError::CounterUnderflow { counter: 3 }));
    assert_eq!(emu.previous(), Err(EmuError::CounterUnderflow { counter: 3 }));
    assert_eq!(emu.counter(), 3);
    let mut emu = Emulator::new();
    emu.load(&[0x00, 0x00, 0x60, 0x05]).unwrap();
    emu.execute(Instruction::Jump { nnn: 0x204 }, 0).unwrap();
    assert_eq!(emu.previous_with(0), Ok(()));
    assert_eq!(emu.counter(), 0x202);
    assert_eq!(emu.registers()[0], 0);
}

#[test]
fn stepping_back_onto_a_refused_instruction_changes_nothing() {
    let mut emu = machine_with(&[0xFF, 0xFF, 0x60, 0x01]);
    emu.execute(Instruction::Jump { nnn: 0x204 }, 0).unwrap();
    assert_eq!(emu.previous_with(0), Err(EmuError::UnknownOpcode { opcode: 0xFFFF }));
    assert_eq!(emu.counter(), 0x204);
}

#[test]
fn the_random_byte_is_masked() {
    let mut emu = Emulator::new();
    emu.execute(Instruction::SetVxRnd { x: 0, nn: 0x0F }, 0xA7).unwrap();
    assert_eq!(emu.registers()[0], 0x07);
    emu.execute(Instruction::SetVxRnd { x: 0, nn: 0xFF }, 0xA7).unwrap();
    assert_eq!(emu.registers()[0], 0xA7);
    let mut emu = machine_with(&[0xC0, 0x0F, 0xC1, 0x00, 0x12, 0x00]);
    for _ in 0..300 {
        emu.next().unwrap();
        assert!(emu.registers()[0] <= 0x0F);
        assert_eq!(emu.registers()[1], 0);
    }
}

#[test]
fn fetch_decodes_without_changing_anything() {
    let emu = machine_with(&[0x12, 0x34, 0xD1, 0x25]);
    assert_eq!(emu.fetch(0x200), Ok(Instruction::Jump { nnn: 0x234 }));
    assert_eq!(emu.fetch(0x201), Ok(Instruction::SkipVxEqNN { x: 4, nn: 0xD1 }));
    assert_eq!(emu.fetch(0x202), Ok(Instruction::Draw { x: 1, y: 2, n: 5 }));
    assert_eq!(emu.fetch(0xFFE), Ok(Instruction::Nop));
    assert_eq!(emu.fetch(0xFFF), Err(EmuError::MemoryOutOfRange { address: 0xFFF }));
    assert_eq!(
        emu.fetch(usize::MAX),
        Err(EmuError::MemoryOutOfRange { address: usize::MAX })
    );
    assert_eq!(emu.counter(), 0x200);
}

#[test]
fn two_machines_on_one_image_and_one_sequence_agree() {
    let rom: Vec<u8> = vec![
        0xC0, 0xFF, 0xC1, 0x3F, 0xA0, 0x00, 0xD0, 0x15, 0x70, 0x03, 0xF0, 0x1E, 0x30, 0x00, 0x12, 0x00,
        0x12, 0x02,
    ];
    let random: Vec<u8> = (0..200u32).map(|k| (k * 37 + 11) as u8).collect();
    let mut first = Emulator::new();
    first.reset();
    first.load(&rom).unwrap();
    let mut second = Emulator::new();
    second.execute(Instruction::SetVxNN { x: 3, nn: 9 }, 0).unwrap();
    second.key_pressed(ChipKey::C);
    second.reset();
    second.load(&rom).unwrap();
    assert_eq!(first.run_with(&random), Ok(()));
    for byte in &random {
        second.next_with(*byte).unwrap();
    }
    assert_eq!(first.counter(), second.counter());
    assert_eq!(first.index(), second.index());
    assert_eq!(first.registers(), second.registers());
    assert_eq!(&first.memory()[..], &second.memory()[..]);
    assert_eq!(&first.get_screen()[..], &second.get_screen()[..]);
    assert_eq!(first.stack_depth(), second.stack_depth());
    assert!(first.get_screen().iter().any(|p| *p));
}

#[test]
fn a_run_stops_at_the_step_that_is_refused() {
    let mut emu = machine_with(&[0x60, 0x01, 0x61, 0x02, 0xFF, 0xFF, 0x62, 0x03]);
    assert_eq!(emu.run_with(&[0; 5]), Err(EmuError::UnknownOpcode { opcode: 0xFFFF }));
    assert_eq!(emu.counter(), 0x204);
    assert_eq!(&emu.registers()[..3], &[1, 2, 0]);
    let mut emu = machine_with(&[0x60, 0x01, 0x61, 0x02, 0xFF, 0xFF]);
    assert_eq!(emu.run_with(&[0; 2]), Ok(()));
    assert_eq!(emu.counter(), 0x204);
    assert_eq!(emu.run_with(&[]), Ok(()));
    assert_eq!(emu.counter(), 0x204);
}

#[test]
fn a_run_in_two_parts_is_the_run_in_one() {
    let rom = [0xC0, 0xFF, 0x70, 0x01, 0x80, 0x04, 0xF0, 0x1E, 0x12, 0x00];
    let random: Vec<u8> = (0..50u8).map(|k| k.wrapping_mul(91)).collect();
    let mut whole = machine_with(&rom);
    whole.run_with(&random).unwrap();
    let mut parts = machine_with(&rom);
    parts.run_with(&random[..17]).unwrap();
    parts.run_with(&random[17..]).unwrap();
    assert_eq!(whole.counter(), parts.counter());
    assert_eq!(whole.index(), parts.index());
    assert_eq!(whole.registers(), parts.registers());
}

#[test]
fn a_waiting_machine_stays_through_a_run() {
    let mut emu = machine_with(&[0xF2, 0x0A, 0x60, 0x01]);
    emu.run_with(&[1, 2, 3, 4, 5]).unwrap();
    assert_eq!(emu.counter(), 0x202);
    assert_eq!(emu.waiting_register(), Some(2));
    assert_eq!(emu.registers(), &[0u8; 16]);
}
