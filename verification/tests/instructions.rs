use chip8::chip8::Chip8;
use chip8::error::Chip8Error;
use chip8::machine::{Quirks, Status};

fn image(words: &[u16]) -> Vec<u8> {
    let mut bytes = Vec::new();
    for word in words {
        bytes.push((word >> 8) as u8);
        bytes.push((word & 0xFF) as u8);
    }
    bytes
}

fn boot(words: &[u16]) -> Chip8 {
    let mut chip = Chip8::initialize();
    assert_eq!(chip.load_game(&image(words)), Ok(()));
    chip
}

fn boot_with(quirks: Quirks, words: &[u16]) -> Chip8 {
    let mut chip = Chip8::with_quirks(quirks);
    assert_eq!(chip.load_game(&image(words)), Ok(()));
    chip
}

fn run(chip: &mut Chip8, steps: usize) {
    for _ in 0..steps {
        assert_eq!(chip.emulate_cycle(), Ok(()));
    }
}

#[test]
fn load_immediate_sets_every_register() {
    for x in 0..16u16 {
        let mut chip = boot(&[0x6000 | (x << 8) | 0xA7]);
        run(&mut chip, 1);
        assert_eq!(chip.register(x as usize), 0xA7);
        assert_eq!(chip.program_counter(), 0x202);
    }
}

#[test]
fn add_immediate_wraps_and_leaves_flag() {
    let mut chip = boot(&[0x63F0, 0x7320, 0x7301]);
    run(&mut chip, 2);
    assert_eq!(chip.register(3), 0x10);
    assert_eq!(chip.register(0xF), 0);
    run(&mut chip, 1);
    assert_eq!(chip.register(3), 0x11);
}

#[test]
fn move_copies_register() {
    let mut chip = boot(&[0x6142, 0x8010]);
    run(&mut chip, 2);
    assert_eq!(chip.register(0), 0x42);
    assert_eq!(chip.register(1), 0x42);
}

#[test]
fn bitwise_operations() {
    let mut chip = boot(&[0x60CC, 0x61AA, 0x8011, 0x62CC, 0x8212, 0x63CC, 0x8313]);
    run(&mut chip, 7);
    assert_eq!(chip.register(0), 0xEE);
    assert_eq!(chip.register(2), 0x88);
    assert_eq!(chip.register(3), 0x66);
}

#[test]
fn add_registers_sets_carry() {
    let mut chip = boot(&[0x60C8, 0x6164, 0x8014]);
    run(&mut chip, 3);
    assert_eq!(chip.register(0), 44);
    assert_eq!(chip.register(0xF), 1);
}

#[test]
fn add_registers_clears_carry() {
    let mut chip = boot(&[0x6F01, 0x6064, 0x619B, 0x8014]);
    run(&mut chip, 4);
    assert_eq!(chip.register(0), 255);
    assert_eq!(chip.register(0xF), 0);
}

#[test]
fn add_into_flag_register_keeps_the_sum() {
    let mut chip = boot(&[0x6FF0, 0x6120, 0x8F14]);
    run(&mut chip, 3);
    assert_eq!(chip.register(0xF), 0x10);
}

#[test]
fn subtract_sets_flag_when_greater() {
    let mut chip = boot(&[0x600A, 0x6103, 0x8015]);
    run(&mut chip, 3);
    assert_eq!(chip.register(0), 7);
    assert_eq!(chip.register(0xF), 1);
}

#[test]
fn subtract_wraps_and_clears_flag_when_smaller() {
    let mut chip = boot(&[0x6003, 0x610A, 0x8015]);
    run(&mut chip, 3);
    assert_eq!(chip.register(0), 249);
    assert_eq!(chip.register(0xF), 0);
}

#[test]
fn subtract_equal_operands_clears_flag() {
    let mut chip = boot(&[0x6F01, 0x6005, 0x6105, 0x8015]);
    run(&mut chip, 4);
    assert_eq!(chip.register(0), 0);
    assert_eq!(chip.register(0xF), 0);
}

#[test]
fn reversed_subtract() {
    let mut chip = boot(&[0x6003, 0x610A, 0x8017]);
    run(&mut chip, 3);
    assert_eq!(chip.register(0), 7);
    assert_eq!(chip.register(0xF), 1);
    let mut chip = boot(&[0x600A, 0x6103, 0x8017]);
    run(&mut chip, 3);
    assert_eq!(chip.register(0), 249);
    assert_eq!(chip.register(0xF), 0);
}

#[test]
fn shift_right_in_place_by_default() {
    let mut chip = boot(&[0x6005, 0x61F0, 0x8016]);
    run(&mut chip, 3);
    assert_eq!(chip.register(0), 2);
    assert_eq!(chip.register(1), 0xF0);
    assert_eq!(chip.register(0xF), 1);
}

#[test]
fn shift_left_in_place_by_default() {
    let mut chip = boot(&[0x6081, 0x6101, 0x801E]);
    run(&mut chip, 3);
    assert_eq!(chip.register(0), 0x02);
    assert_eq!(chip.register(0xF), 1);
    let mut chip = boot(&[0x6F01, 0x6041, 0x801E]);
    run(&mut chip, 3);
    assert_eq!(chip.register(0), 0x82);
    assert_eq!(chip.register(0xF), 0);
}

#[test]
fn shift_quirk_reads_the_other_register() {
    let quirks = Quirks { shift_reads_vy: true, index_advances: false, draw_keeps_flag: false };
    let mut chip = boot_with(quirks, &[0x6005, 0x61F0, 0x8016]);
    run(&mut chip, 3);
    assert_eq!(chip.register(0), 0x78);
    assert_eq!(chip.register(1), 0xF0);
    assert_eq!(chip.register(0xF), 0);
    let mut chip = boot_with(quirks, &[0x6005, 0x61F0, 0x801E]);
    run(&mut chip, 3);
    assert_eq!(chip.register(0), 0xE0);
    assert_eq!(chip.register(0xF), 1);
}

#[test]
fn default_quirks_are_all_off() {
    let quirks = Quirks::default();
    assert!(!quirks.shift_reads_vy);
    assert!(!quirks.index_advances);
    assert!(!quirks.draw_keeps_flag);
    assert_eq!(Chip8::initialize().quirks(), quirks);
}

#[test]
fn skip_if_equal_byte() {
    let mut chip = boot(&[0x6011, 0x3011]);
    run(&mut chip, 2);
    assert_eq!(chip.program_counter(), 0x202 + 4);
    let mut chip = boot(&[0x6011, 0x3012]);
    run(&mut chip, 2);
    assert_eq!(chip.program_counter(), 0x202 + 2);
}

#[test]
fn skip_if_not_equal_byte() {
    let mut chip = boot(&[0x6011, 0x4012]);
    run(&mut chip, 2);
    assert_eq!(chip.program_counter(), 0x202 + 4);
    let mut chip = boot(&[0x6011, 0x4011]);
    run(&mut chip, 2);
    assert_eq!(chip.program_counter(), 0x202 + 2);
}

#[test]
fn skip_if_registers_equal() {
    let mut chip = boot(&[0x6011, 0x6111, 0x5010]);
    run(&mut chip, 3);
    assert_eq!(chip.program_counter(), 0x204 + 4);
    let mut chip = boot(&[0x6011, 0x6112, 0x5010]);
    run(&mut chip, 3);
    assert_eq!(chip.program_counter(), 0x204 + 2);
}

#[test]
fn skip_if_registers_differ() {
    let mut chip = boot(&[0x6011, 0x6112, 0x9010]);
    run(&mut chip, 3);
    assert_eq!(chip.program_counter(), 0x204 + 4);
    let mut chip = boot(&[0x6011, 0x6111, 0x9010]);
    run(&mut chip, 3);
    assert_eq!(chip.program_counter(), 0x204 + 2);
}

#[test]
fn skip_if_key_down() {
    let mut chip = boot(&[0x6007, 0xE09E]);
    chip.set_key(7, true);
    run(&mut chip, 2);
    assert_eq!(chip.program_counter(), 0x202 + 4);
    let mut chip = boot(&[0x6007, 0xE09E]);
    chip.set_key(6, true);
    run(&mut chip, 2);
    assert_eq!(chip.program_counter(), 0x202 + 2);
}

#[test]
fn skip_if_key_up() {
    let mut chip = boot(&[0x6007, 0xE0A1]);
    run(&mut chip, 2);
    assert_eq!(chip.program_counter(), 0x202 + 4);
    let mut chip = boot(&[0x6007, 0xE0A1]);
    chip.set_key(7, true);
    run(&mut chip, 2);
    assert_eq!(chip.program_counter(), 0x202 + 2);
}

#[test]
fn key_number_is_the_low_nibble_of_the_register() {
    let mut chip = boot(&[0x60F3, 0xE09E]);
    chip.set_key(3, true);
    run(&mut chip, 2);
    assert_eq!(chip.program_counter(), 0x202 + 4);
}

#[test]
fn jump_sets_program_counter() {
    let mut chip = boot(&[0x1ABC]);
    run(&mut chip, 1);
    assert_eq!(chip.program_counter(), 0xABC);
}

#[test]
fn jump_with_offset_adds_v0() {
    let mut chip = boot(&[0x60FF, 0xBFFF]);
    run(&mut chip, 2);
    assert_eq!(chip.program_counter(), 0xFFF + 0xFF);
}

#[test]
fn call_and_return() {
    // 0x200: call 0x206; 0x202: V1 = 2; 0x206: V0 = 1; 0x208: return
    let mut chip = boot(&[0x2206, 0x6102, 0x0000, 0x6001, 0x00EE]);
    run(&mut chip, 1);
    assert_eq!(chip.program_counter(), 0x206);
    assert_eq!(chip.stack_depth(), 1);
    run(&mut chip, 2);
    assert_eq!(chip.program_counter(), 0x202);
    assert_eq!(chip.stack_depth(), 0);
    run(&mut chip, 1);
    assert_eq!(chip.register(0), 1);
    assert_eq!(chip.register(1), 2);
}

#[test]
fn sixteen_nested_calls_fit_and_the_next_overflows() {
    // every instruction calls the next one
    let mut words = Vec::new();
    for k in 0..17u16 {
        words.push(0x2000 | (0x202 + 2 * k));
    }
    let mut chip = boot(&words);
    run(&mut chip, 16);
    assert_eq!(chip.stack_depth(), 16);
    assert_eq!(chip.program_counter(), 0x220);
    assert_eq!(chip.emulate_cycle(), Err(Chip8Error::StackOverflow));
    assert_eq!(chip.status(), Status::Halted(Chip8Error::StackOverflow));
    assert_eq!(chip.stack_depth(), 16);
    assert_eq!(chip.program_counter(), 0x220);
}

#[test]
fn return_with_empty_stack_underflows() {
    let mut chip = boot(&[0x00EE]);
    assert_eq!(chip.emulate_cycle(), Err(Chip8Error::StackUnderflow));
    assert_eq!(chip.status(), Status::Halted(Chip8Error::StackUnderflow));
    assert_eq!(chip.program_counter(), 0x200);
}

#[test]
fn unknown_opcodes_halt_with_word_and_address() {
    for word in [0x0000u16, 0x0123, 0x8008, 0x800F, 0xE000, 0xE19F, 0xF000, 0xF1FF, 0xF056] {
        let mut chip = boot(&[0x6001, word]);
        run(&mut chip, 1);
        let error = Chip8Error::UnknownOpcode { opcode: word, pc: 0x202 };
        assert_eq!(chip.emulate_cycle(), Err(error));
        assert_eq!(chip.status(), Status::Halted(error));
        assert_eq!(chip.program_counter(), 0x202);
    }
}

#[test]
fn halted_interpreter_stays_halted() {
    let mut chip = boot(&[0x00EE, 0x6001]);
    assert_eq!(chip.emulate_cycle(), Err(Chip8Error::StackUnderflow));
    for _ in 0..5 {
        assert_eq!(chip.emulate_cycle(), Err(Chip8Error::StackUnderflow));
        assert_eq!(chip.program_counter(), 0x200);
        assert_eq!(chip.register(0), 0);
    }
}

#[test]
fn running_off_the_end_of_memory_halts() {
    let mut chip = boot(&[0x1FFE]);
    run(&mut chip, 1);
    // 0xFFE holds 0x0000, which is no instruction
    assert_eq!(
        chip.emulate_cycle(),
        Err(Chip8Error::UnknownOpcode { opcode: 0, pc: 0xFFE })
    );
    let mut chip = boot(&[0x1FFF]);
    run(&mut chip, 1);
    assert_eq!(chip.emulate_cycle(), Err(Chip8Error::MemoryOutOfRange));
    assert_eq!(chip.program_counter(), 0xFFF);
}

#[test]
fn load_index_and_add_index() {
    let mut chip = boot(&[0xA123, 0x60FF, 0xF01E]);
    run(&mut chip, 1);
    assert_eq!(chip.index(), 0x123);
    run(&mut chip, 2);
    assert_eq!(chip.index(), 0x123 + 0xFF);
}

#[test]
fn add_index_wraps_at_sixteen_bits() {
    // I = 0xFFF, then I += 0xFF again and again
    let mut chip = boot(&[0x60FF, 0xAFFF, 0xF01E, 0x1204]);
    run(&mut chip, 2 + 2 * 240);
    assert_eq!(chip.index(), 65295);
    run(&mut chip, 1);
    assert_eq!(chip.index(), 14);
}

#[test]
fn font_address_is_five_times_the_digit() {
    let mut chip = boot(&[0x600A, 0xF029]);
    run(&mut chip, 2);
    assert_eq!(chip.index(), 50);
    assert_eq!(chip.memory(50), 0xF0);
    assert_eq!(chip.memory(54), 0x90);
}

#[test]
fn bcd_stores_three_digits() {
    let mut chip = boot(&[0x60EA, 0xA300, 0xF033]);
    run(&mut chip, 3);
    assert_eq!(chip.memory(0x300), 2);
    assert_eq!(chip.memory(0x301), 3);
    assert_eq!(chip.memory(0x302), 4);
    assert_eq!(chip.index(), 0x300);
}

#[test]
fn bcd_at_the_last_three_bytes_is_in_range() {
    let mut chip = boot(&[0x6007, 0xAFFD, 0xF033]);
    run(&mut chip, 3);
    assert_eq!(chip.memory(0xFFD), 0);
    assert_eq!(chip.memory(0xFFE), 0);
    assert_eq!(chip.memory(0xFFF), 7);
}

#[test]
fn bcd_past_the_end_of_memory_halts_without_writing() {
    let mut chip = boot(&[0x60FF, 0xAFFE, 0xF033]);
    run(&mut chip, 2);
    assert_eq!(chip.emulate_cycle(), Err(Chip8Error::MemoryOutOfRange));
    assert_eq!(chip.memory(0xFFE), 0);
    assert_eq!(chip.memory(0xFFF), 0);
    assert_eq!(chip.program_counter(), 0x204);
}

#[test]
fn store_and_load_registers() {
    let mut chip = boot(&[
        0x6011, 0x6122, 0x6233, 0x6344, 0xA300, 0xF255, 0x6000, 0x6100, 0x6200, 0x6300, 0xF365,
    ]);
    run(&mut chip, 6);
    assert_eq!(chip.memory(0x300), 0x11);
    assert_eq!(chip.memory(0x301), 0x22);
    assert_eq!(chip.memory(0x302), 0x33);
    assert_eq!(chip.memory(0x303), 0);
    assert_eq!(chip.index(), 0x300);
    run(&mut chip, 5);
    assert_eq!(chip.register(0), 0x11);
    assert_eq!(chip.register(1), 0x22);
    assert_eq!(chip.register(2), 0x33);
    assert_eq!(chip.register(3), 0);
    assert_eq!(chip.index(), 0x300);
}

#[test]
fn index_quirk_advances_past_the_last_byte() {
    let quirks = Quirks { shift_reads_vy: false, index_advances: true, draw_keeps_flag: false };
    let mut chip = boot_with(quirks, &[0xA300, 0xF255, 0xF165]);
    run(&mut chip, 2);
    assert_eq!(chip.index(), 0x303);
    run(&mut chip, 1);
    assert_eq!(chip.index(), 0x305);
}

#[test]
fn register_transfer_past_the_end_of_memory_halts_without_effect() {
    let mut chip = boot(&[0x6011, 0x6122, 0xAFFF, 0xF155]);
    run(&mut chip, 3);
    assert_eq!(chip.emulate_cycle(), Err(Chip8Error::MemoryOutOfRange));
    assert_eq!(chip.memory(0xFFF), 0);
    let mut chip = boot(&[0x6011, 0x6122, 0xAFFF, 0xF165]);
    run(&mut chip, 3);
    assert_eq!(chip.emulate_cycle(), Err(Chip8Error::MemoryOutOfRange));
    assert_eq!(chip.register(0), 0x11);
    assert_eq!(chip.register(1), 0x22);
}

#[test]
fn register_transfer_up_to_the_last_byte_is_in_range() {
    let mut chip = boot(&[0x6011, 0x6122, 0xAFFE, 0xF155]);
    run(&mut chip, 4);
    assert_eq!(chip.memory(0xFFE), 0x11);
    assert_eq!(chip.memory(0xFFF), 0x22);
}

#[test]
fn random_byte_is_masked() {
    let mut chip = boot(&[0xC00F, 0xC100, 0xC2F0]);
    run(&mut chip, 3);
    assert_eq!(chip.register(0) & 0xF0, 0);
    assert_eq!(chip.register(1), 0);
    assert_eq!(chip.register(2) & 0x0F, 0);
}

#[test]
fn random_instruction_with_a_given_byte() {
    let mut chip = boot(&[0xC03C]);
    assert_eq!(chip.emulate_cycle_with(0xA5), Ok(()));
    assert_eq!(chip.register(0), 0x24);
    assert_eq!(chip.program_counter(), 0x202);
}

#[test]
fn given_byte_is_ignored_by_other_instructions() {
    let mut first = boot(&[0x6012, 0x7001]);
    let mut second = boot(&[0x6012, 0x7001]);
    for _ in 0..2 {
        assert_eq!(first.emulate_cycle_with(0x00), Ok(()));
        assert_eq!(second.emulate_cycle_with(0xFF), Ok(()));
    }
    assert_eq!(first.register(0), 0x13);
    assert_eq!(second.register(0), 0x13);
}

#[test]
fn delay_and_sound_timer_instructions() {
    let mut chip = boot(&[0x6030, 0xF015, 0xF018, 0xF107]);
    run(&mut chip, 4);
    assert_eq!(chip.delay_timer(), 0x30);
    assert_eq!(chip.sound_timer(), 0x30);
    assert_eq!(chip.register(1), 0x30);
}
