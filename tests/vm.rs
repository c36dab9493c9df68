use chip8_core::instructions::Instruction;
use chip8_core::keypad::{Key, KeyState, KeyWait, Keypad};
use chip8_core::memory::FONT_BASE;
use chip8_core::vm::{Chip8VM, VMError};

fn vm_with_rom(rom: &[u8]) -> Chip8VM {
    let mut vm = Chip8VM::new();
    vm.load_rom(rom).unwrap();
    vm
}

#[test]
fn test_registers_8bits() {
    let mut vm = Chip8VM::new();

    // no overflow
    assert!(vm.execute(Instruction::SetVal(6, 255)).is_ok());
    assert_eq!(vm.register(6), 255);
    assert!(vm.execute(Instruction::AddVal(6, 10)).is_ok());
    assert_eq!(vm.register(6), 9);
    assert!(vm.execute(Instruction::ShiftRight(6, 6)).is_ok());
    assert_eq!(vm.register(6), 4);
    assert!(vm.execute(Instruction::SetVal(6, 255)).is_ok());
    assert_eq!(vm.register(6), 255);
    assert!(vm.execute(Instruction::SetVal(0, 10)).is_ok());
    assert_eq!(vm.register(0), 10);
    assert!(vm.execute(Instruction::Add(6, 0)).is_ok());
    assert_eq!(vm.register(6), 9);
    assert!(vm.execute(Instruction::ShiftRight(6, 6)).is_ok());
    assert_eq!(vm.register(6), 4);

    // do not retain bits
    assert!(vm.execute(Instruction::SetVal(6, 255)).is_ok());
    assert_eq!(vm.register(6), 255);
    assert!(vm.execute(Instruction::ShiftLeft(6, 6)).is_ok());
    assert!(vm.execute(Instruction::ShiftRight(6, 6)).is_ok());
    assert_eq!(vm.register(6), 127);
    assert!(vm.execute(Instruction::ShiftRight(6, 6)).is_ok());
    assert!(vm.execute(Instruction::ShiftLeft(6, 6)).is_ok());
    assert_eq!(vm.register(6), 126);

    assert!(vm.execute(Instruction::SetVal(6, 5)).is_ok());
    assert_eq!(vm.register(6), 5);
    assert!(vm.execute(Instruction::SetVal(0, 10)).is_ok());
    assert_eq!(vm.register(0), 10);
    assert!(vm.execute(Instruction::SubLeft(6, 0)).is_ok());
    assert_eq!(vm.register(6), 251);

    assert!(vm.execute(Instruction::SetVal(6, 5)).is_ok());
    assert_eq!(vm.register(6), 5);
    assert!(vm.execute(Instruction::SubLeft(6, 0)).is_ok());
    assert_eq!(vm.register(6), 251);
    assert!(vm.execute(Instruction::SetVal(6, 5)).is_ok());
    assert_eq!(vm.register(6), 5);
    assert!(vm.execute(Instruction::SubRight(0, 6)).is_ok());
    assert_eq!(vm.register(0), 251);
}

#[test]
fn add_val_wraps_modulo_256() {
    let mut vm = Chip8VM::new();
    for (v, nn) in [(0u8, 0u8), (200, 100), (255, 255), (255, 1), (17, 3)] {
        vm.execute(Instruction::SetVal(2, v)).unwrap();
        vm.execute(Instruction::SetVal(0xF, 0x77)).unwrap();
        assert_eq!(vm.execute(Instruction::AddVal(2, nn)), Ok(()));
        assert_eq!(vm.register(2), ((v as u16 + nn as u16) % 256) as u8);
        // AddVal leaves the flag alone
        assert_eq!(vm.register(0xF), 0x77);
    }
}

#[test]
fn add_sets_carry() {
    let mut vm = Chip8VM::new();
    vm.execute(Instruction::SetVal(1, 200)).unwrap();
    vm.execute(Instruction::SetVal(2, 100)).unwrap();
    vm.execute(Instruction::Add(1, 2)).unwrap();
    assert_eq!(vm.register(1), 44);
    assert_eq!(vm.register(0xF), 1);
    vm.execute(Instruction::SetVal(1, 155)).unwrap();
    vm.execute(Instruction::Add(1, 2)).unwrap();
    assert_eq!(vm.register(1), 255);
    assert_eq!(vm.register(0xF), 0);
    // VF as the destination keeps only the flag
    vm.execute(Instruction::SetVal(0xF, 200)).unwrap();
    vm.execute(Instruction::Add(0xF, 2)).unwrap();
    assert_eq!(vm.register(0xF), 1);
}

#[test]
fn sub_left_and_right_flags() {
    let mut vm = Chip8VM::new();
    vm.execute(Instruction::SetVal(1, 10)).unwrap();
    vm.execute(Instruction::SetVal(2, 10)).unwrap();
    vm.execute(Instruction::SubLeft(1, 2)).unwrap();
    assert_eq!(vm.register(1), 0);
    assert_eq!(vm.register(0xF), 1);
    vm.execute(Instruction::SubLeft(1, 2)).unwrap();
    assert_eq!(vm.register(1), 246);
    assert_eq!(vm.register(0xF), 0);
    vm.execute(Instruction::SubRight(1, 2)).unwrap();
    assert_eq!(vm.register(1), 20);
    assert_eq!(vm.register(0xF), 0);
    vm.execute(Instruction::SetVal(1, 3)).unwrap();
    vm.execute(Instruction::SubRight(1, 2)).unwrap();
    assert_eq!(vm.register(1), 7);
    assert_eq!(vm.register(0xF), 1);
}

#[test]
fn bitwise_and_shift_flags() {
    let mut vm = Chip8VM::new();
    vm.execute(Instruction::SetVal(1, 0b1100_0101)).unwrap();
    vm.execute(Instruction::SetVal(2, 0b1010_0011)).unwrap();
    vm.execute(Instruction::SetReg(3, 1)).unwrap();
    vm.execute(Instruction::OR(3, 2)).unwrap();
    assert_eq!(vm.register(3), 0b1110_0111);
    vm.execute(Instruction::SetReg(3, 1)).unwrap();
    vm.execute(Instruction::AND(3, 2)).unwrap();
    assert_eq!(vm.register(3), 0b1000_0001);
    vm.execute(Instruction::SetReg(3, 1)).unwrap();
    vm.execute(Instruction::XOR(3, 2)).unwrap();
    assert_eq!(vm.register(3), 0b0110_0110);
    vm.execute(Instruction::ShiftRight(1, 0)).unwrap();
    assert_eq!(vm.register(1), 0b0110_0010);
    assert_eq!(vm.register(0xF), 1);
    vm.execute(Instruction::ShiftLeft(2, 0)).unwrap();
    assert_eq!(vm.register(2), 0b0100_0110);
    assert_eq!(vm.register(0xF), 1);
    vm.execute(Instruction::ShiftLeft(2, 0)).unwrap();
    assert_eq!(vm.register(0xF), 0);
}

#[test]
fn store_then_load_round_trip() {
    let mut vm = Chip8VM::new();
    for r in 0..16u8 {
        vm.execute(Instruction::SetVal(r, 3 * r + 1)).unwrap();
    }
    vm.execute(Instruction::SetIndex(0x300)).unwrap();
    vm.execute(Instruction::StoreMem(5)).unwrap();
    assert_eq!(vm.read_memory(0x300), 1);
    assert_eq!(vm.read_memory(0x305), 16);
    assert_eq!(vm.read_memory(0x306), 0);
    for r in 0..16u8 {
        vm.execute(Instruction::SetVal(r, 0)).unwrap();
    }
    vm.execute(Instruction::LoadMem(5)).unwrap();
    for r in 0..=5u8 {
        assert_eq!(vm.register(r), 3 * r + 1);
    }
    assert_eq!(vm.register(6), 0);
    assert_eq!(vm.index_register(), 0x300);
}

#[test]
fn memory_instructions_past_the_end_fail() {
    let mut vm = Chip8VM::new();
    vm.execute(Instruction::SetIndex(0xFFE)).unwrap();
    assert_eq!(vm.execute(Instruction::StoreMem(2)), Err(VMError::AddressOutOfRange(0xFFE)));
    assert_eq!(vm.execute(Instruction::LoadMem(2)), Err(VMError::AddressOutOfRange(0xFFE)));
    assert_eq!(vm.execute(Instruction::BinDecConv(0)), Err(VMError::AddressOutOfRange(0xFFE)));
    assert_eq!(vm.execute(Instruction::Display(0, 0, 3)), Err(VMError::AddressOutOfRange(0xFFE)));
    assert_eq!(vm.execute(Instruction::StoreMem(1)), Ok(()));
    assert_eq!(vm.read_memory(0xFFF), 0);
}

#[test]
fn bin_dec_conv_writes_digits() {
    let mut vm = Chip8VM::new();
    vm.execute(Instruction::SetVal(4, 254)).unwrap();
    vm.execute(Instruction::SetIndex(0x400)).unwrap();
    vm.execute(Instruction::BinDecConv(4)).unwrap();
    assert_eq!(vm.read_memory(0x400), 2);
    assert_eq!(vm.read_memory(0x401), 5);
    assert_eq!(vm.read_memory(0x402), 4);
}

#[test]
fn font_char_points_at_glyph() {
    let mut vm = Chip8VM::new();
    vm.execute(Instruction::SetVal(1, 0xA)).unwrap();
    vm.execute(Instruction::FontChar(1)).unwrap();
    assert_eq!(vm.index_register() as usize, FONT_BASE + 50);
    assert_eq!(vm.read_memory(vm.index_register() as usize), 0xF0);
    vm.execute(Instruction::SetVal(1, 0x1F)).unwrap();
    vm.execute(Instruction::FontChar(1)).unwrap();
    assert_eq!(vm.index_register() as usize, FONT_BASE + 75);
}

#[test]
fn index_register_arithmetic() {
    let mut vm = Chip8VM::new();
    vm.execute(Instruction::SetIndex(0xFFF)).unwrap();
    vm.execute(Instruction::SetVal(2, 0x10)).unwrap();
    vm.execute(Instruction::AddToIndex(2)).unwrap();
    assert_eq!(vm.index_register(), 0x100F);
}

#[test]
fn redrawing_a_sprite_erases_it_and_collides() {
    let mut vm = Chip8VM::new();
    vm.execute(Instruction::SetVal(0, 62)).unwrap();
    vm.execute(Instruction::SetVal(1, 30)).unwrap();
    vm.execute(Instruction::SetVal(2, 0)).unwrap();
    vm.execute(Instruction::FontChar(2)).unwrap();
    vm.execute(Instruction::Display(0, 1, 5)).unwrap();
    assert_eq!(vm.register(0xF), 0);
    let lit = vm.get_framebuffer().iter().filter(|p| **p).count();
    // glyph 0 has 4 + 2 + 2 + 2 + 4 set bits
    assert_eq!(lit, 14);
    // wrapped: top-left of the glyph at (62, 30), its third column at (0, 30)
    assert!(vm.get_framebuffer()[30 * 64 + 62]);
    assert!(vm.get_framebuffer()[30 * 64 + 0]);
    assert!(vm.get_framebuffer()[0 * 64 + 62]);
    vm.execute(Instruction::Display(0, 1, 5)).unwrap();
    assert_eq!(vm.register(0xF), 1);
    assert!(vm.get_framebuffer().iter().all(|p| !p));
}

#[test]
fn sprite_zero_bits_leave_pixels() {
    let mut vm = Chip8VM::new();
    // a one-row sprite 0b1000_0001 at 0x300
    vm.execute(Instruction::SetIndex(0x300)).unwrap();
    vm.execute(Instruction::SetVal(0, 0b1000_0001)).unwrap();
    vm.execute(Instruction::StoreMem(0)).unwrap();
    vm.execute(Instruction::SetVal(0, 0)).unwrap();
    vm.execute(Instruction::Display(0, 1, 1)).unwrap();
    vm.execute(Instruction::SetVal(0, 1)).unwrap();
    vm.execute(Instruction::Display(0, 1, 1)).unwrap();
    // the second sprite's first bit lands on (1, 0), the first's last bit on (7, 0)
    let fb = vm.get_framebuffer();
    assert!(fb[0] && fb[1] && fb[7] && fb[8]);
    assert_eq!(fb.iter().filter(|p| **p).count(), 4);
    assert_eq!(vm.register(0xF), 0);
    vm.execute(Instruction::ClearScreen).unwrap();
    assert!(vm.get_framebuffer().iter().all(|p| !p));
}

#[test]
fn key_wait_blocks_until_press_and_release() {
    // F30A: wait for a key into V3; 6405: V4 = 5
    let mut vm = vm_with_rom(&[0xF3, 0x0A, 0x64, 0x05]);
    assert_eq!(vm.run_cycle(), Ok(()));
    assert!(vm.is_waiting());
    assert_eq!(vm.pc(), 0x200);
    for _ in 0..5 {
        assert_eq!(vm.run_cycle(), Ok(()));
    }
    assert_eq!(vm.pc(), 0x200);
    assert_eq!(vm.register(4), 0);
    vm.handle_key(7, false);
    assert!(vm.is_waiting());
    vm.handle_key(7, true);
    assert_eq!(vm.register(3), 7);
    assert!(vm.is_waiting());
    vm.run_cycle().unwrap();
    assert_eq!(vm.register(4), 0);
    vm.handle_key(2, false);
    vm.handle_key(7, true);
    assert!(vm.is_waiting());
    vm.handle_key(7, false);
    assert!(!vm.is_waiting());
    assert_eq!(vm.pc(), 0x202);
    assert_eq!(vm.run_cycle(), Ok(()));
    assert_eq!(vm.register(4), 5);
    assert_eq!(vm.register(3), 7);
}

#[test]
fn key_codes_above_f_are_ignored() {
    let mut vm = vm_with_rom(&[0xF3, 0x0A]);
    vm.run_cycle().unwrap();
    vm.handle_key(0x10, true);
    vm.handle_key(0x10, false);
    assert!(vm.is_waiting());
    assert_eq!(vm.register(3), 0);
}

#[test]
fn skip_if_pressed() {
    // E19E at 0x200, E1A1 at 0x202 / 0x204
    let mut vm = vm_with_rom(&[0xE1, 0x9E, 0xE1, 0xA1, 0xE1, 0xA1]);
    vm.execute(Instruction::SetVal(1, 0xC)).unwrap();
    vm.run_cycle().unwrap();
    assert_eq!(vm.pc(), 0x202);
    vm.handle_key(0xC, true);
    vm.run_cycle().unwrap();
    assert_eq!(vm.pc(), 0x204);
    vm.handle_key(0xC, false);
    vm.run_cycle().unwrap();
    assert_eq!(vm.pc(), 0x208);
    vm.execute(Instruction::SetVal(1, 0x10)).unwrap();
    assert_eq!(vm.execute(Instruction::SkipIfPressed(1)), Err(VMError::UnknownKey(0x10)));
    assert_eq!(vm.execute(Instruction::SkipNotPressed(1)), Err(VMError::UnknownKey(0x10)));
}

#[test]
fn skips_on_values_and_registers() {
    let mut vm = Chip8VM::new();
    vm.execute(Instruction::SetVal(1, 5)).unwrap();
    vm.execute(Instruction::SetVal(2, 5)).unwrap();
    vm.execute(Instruction::SkipValEqual(1, 5)).unwrap();
    assert_eq!(vm.pc(), 0x202);
    vm.execute(Instruction::SkipValNotEqual(1, 5)).unwrap();
    assert_eq!(vm.pc(), 0x202);
    vm.execute(Instruction::SkipRegEqual(1, 2)).unwrap();
    assert_eq!(vm.pc(), 0x204);
    vm.execute(Instruction::SkipRegNotEqual(1, 2)).unwrap();
    assert_eq!(vm.pc(), 0x204);
    vm.execute(Instruction::SkipValNotEqual(1, 6)).unwrap();
    assert_eq!(vm.pc(), 0x206);
}

#[test]
fn call_and_return() {
    // 0x200: 2300 call 0x300; 0x300: 00EE return
    let mut rom = vec![0u8; 0x102];
    rom[0] = 0x23;
    rom[1] = 0x00;
    rom[0x100] = 0x00;
    rom[0x101] = 0xEE;
    let mut vm = vm_with_rom(&rom);
    vm.run_cycle().unwrap();
    assert_eq!(vm.pc(), 0x300);
    vm.run_cycle().unwrap();
    assert_eq!(vm.pc(), 0x202);
    assert_eq!(vm.execute(Instruction::ExitSubroutine), Err(VMError::StackUnderflow()));
    assert_eq!(vm.pc(), 0x202);
}

#[test]
fn call_beyond_stack_depth_overflows() {
    // 0x200: 2200 calls itself
    let mut vm = vm_with_rom(&[0x22, 0x00]);
    for _ in 0..100 {
        assert_eq!(vm.run_cycle(), Ok(()));
    }
    assert_eq!(vm.run_cycle(), Err(VMError::StackOverflow()));
    assert_eq!(vm.pc(), 0x202);
}

#[test]
fn jumps() {
    let mut vm = Chip8VM::new();
    vm.execute(Instruction::Jump(0x345)).unwrap();
    assert_eq!(vm.pc(), 0x345);
    vm.execute(Instruction::SetVal(0, 0x20)).unwrap();
    vm.execute(Instruction::JumpOffset(0xFF0)).unwrap();
    assert_eq!(vm.pc(), 0x010);
}

#[test]
fn unknown_instruction_fails_the_cycle() {
    let mut vm = vm_with_rom(&[0xFF, 0xFF]);
    assert_eq!(vm.run_cycle(), Err(VMError::UnknownInstruction(0xFFFF)));
    assert_eq!(vm.pc(), 0x202);
}

#[test]
fn fetch_past_memory_fails() {
    let mut vm = Chip8VM::new();
    vm.execute(Instruction::Jump(0xFFF)).unwrap();
    assert_eq!(vm.run_cycle(), Err(VMError::AddressOutOfRange(0xFFF)));
    assert_eq!(vm.pc(), 0xFFF);
}

#[test]
fn rom_too_large_is_refused() {
    let mut vm = Chip8VM::new();
    let rom = vec![1u8; 4096 - 0x200 + 1];
    assert!(matches!(vm.load_rom(&rom), Err(VMError::RomLoadFailure(_))));
    assert_eq!(vm.read_memory(0x200), 0);
}

#[test]
fn timers_count_down_to_zero() {
    let mut vm = Chip8VM::new();
    vm.execute(Instruction::SetVal(1, 2)).unwrap();
    vm.execute(Instruction::SetDelayTimer(1)).unwrap();
    vm.execute(Instruction::SetVal(1, 1)).unwrap();
    vm.execute(Instruction::SetSoundTimer(1)).unwrap();
    vm.tick_timers();
    assert_eq!(vm.delay_timer(), 1);
    assert_eq!(vm.sound_timer(), 0);
    vm.tick_timers();
    vm.tick_timers();
    assert_eq!(vm.delay_timer(), 0);
    assert_eq!(vm.sound_timer(), 0);
    vm.execute(Instruction::SetVal(1, 9)).unwrap();
    vm.execute(Instruction::SetDelayTimer(1)).unwrap();
    vm.tick_timers();
    vm.execute(Instruction::GetDelayTimer(5)).unwrap();
    assert_eq!(vm.register(5), 8);
}

#[test]
fn random_is_masked() {
    let mut vm = Chip8VM::new();
    for _ in 0..50 {
        vm.execute(Instruction::Random(3, 0x0F)).unwrap();
        assert_eq!(vm.register(3) & 0xF0, 0);
    }
    vm.execute(Instruction::Random(3, 0)).unwrap();
    assert_eq!(vm.register(3), 0);
    vm.execute_with(Instruction::Random(3, 0x3C), 0xA5).unwrap();
    assert_eq!(vm.register(3), 0x24);
}

#[test]
fn new_machine_state() {
    let vm = Chip8VM::new();
    assert_eq!(vm.pc(), 0x200);
    assert_eq!(vm.index_register(), 0);
    assert!(!vm.is_waiting());
    assert_eq!(vm.get_framebuffer().len(), 64 * 32);
    for r in 0..16 {
        assert_eq!(vm.register(r), 0);
    }
}

#[test]
fn keys_and_keypad() {
    assert_eq!(Key::try_from(0xB), Ok(Key::KeyB));
    assert_eq!(Key::try_from(0x10), Err(VMError::UnknownKey(0x10)));
    assert_eq!(Key::KeyF.code(), 15);
    let mut keypad = Keypad::new();
    assert!(!keypad.is_waiting());
    keypad.set_key_state(Key::Key3, KeyState::Pressed);
    assert_eq!(keypad.key_state(Key::Key3), KeyState::Pressed);
    assert_eq!(keypad.key_state(Key::Key4), KeyState::NotPressed);
    keypad.set_wait(KeyWait::WaitingForRelease(3));
    assert!(keypad.is_waiting());
    assert_eq!(keypad.wait_state(), KeyWait::WaitingForRelease(3));
}

#[test]
fn load_rom_keeps_program_counter() {
    let mut vm = Chip8VM::new();
    vm.execute(Instruction::Jump(0x345)).unwrap();
    vm.execute(Instruction::SetVal(2, 9)).unwrap();
    assert_eq!(vm.load_rom(&[0xAB, 0xCD]), Ok(()));
    assert_eq!(vm.pc(), 0x345);
    assert_eq!(vm.register(2), 9);
    assert_eq!(vm.read_memory(0x200), 0xAB);
    assert_eq!(vm.read_memory(0x201), 0xCD);
}

#[test]
fn load_after_store_with_steps_between() {
    let mut vm = Chip8VM::new();
    for r in 0..4u8 {
        vm.execute(Instruction::SetVal(r, 10 + r)).unwrap();
    }
    vm.execute(Instruction::SetIndex(0x500)).unwrap();
    vm.execute(Instruction::StoreMem(3)).unwrap();
    // other work that leaves I and the stored bytes alone
    vm.execute(Instruction::SetVal(0, 0)).unwrap();
    vm.execute(Instruction::SetVal(3, 77)).unwrap();
    vm.execute(Instruction::SetVal(9, 5)).unwrap();
    vm.execute(Instruction::Jump(0x240)).unwrap();
    vm.execute(Instruction::LoadMem(3)).unwrap();
    for r in 0..4u8 {
        assert_eq!(vm.register(r), 10 + r);
    }
    assert_eq!(vm.register(9), 5);
}

#[test]
fn redraw_with_steps_between_erases() {
    let mut vm = Chip8VM::new();
    vm.execute(Instruction::SetVal(4, 0x7)).unwrap();
    vm.execute(Instruction::FontChar(4)).unwrap();
    vm.execute(Instruction::SetVal(1, 20)).unwrap();
    vm.execute(Instruction::SetVal(2, 10)).unwrap();
    vm.execute(Instruction::Display(1, 2, 5)).unwrap();
    assert_eq!(vm.register(0xF), 0);
    // unrelated steps between the two draws
    vm.execute(Instruction::SetVal(5, 3)).unwrap();
    vm.tick_timers();
    vm.execute(Instruction::Jump(0x300)).unwrap();
    vm.execute(Instruction::Display(1, 2, 5)).unwrap();
    assert_eq!(vm.register(0xF), 1);
    assert!(vm.get_framebuffer().iter().all(|p| !p));
}
