use chip8::chip8::{lowest_key, Chip8};
use chip8::error::Chip8Error;
use chip8::machine::{Quirks, Status};

fn image(words: &[u16]) -> Vec<u8> {
    let mut bytes = Vec::new();
    for word in words {
        bytes.push((word >> 8) as u8);
        bytes.push((word & 0xFF) as u8);
    }
    bytes
}

fn boot(words: &[u16]) -> Chip8 {
    let mut chip = Chip8::initialize();
    assert_eq!(chip.load_game(&image(words)), Ok(()));
    chip
}

fn run(chip: &mut Chip8, steps: usize) {
    for _ in 0..steps {
        assert_eq!(chip.emulate_cycle(), Ok(()));
    }
}

const FONT: [u8; 80] = [
    0xF0, 0x90, 0x90, 0x90, 0xF0, 0x20, 0x60, 0x20, 0x20, 0x70, 0xF0, 0x10, 0xF0, 0x80, 0xF0, 0xF0,
    0x10, 0xF0, 0x10, 0xF0, 0x90, 0x90, 0xF0, 0x10, 0x10, 0xF0, 0x80, 0xF0, 0x10, 0xF0, 0xF0, 0x80,
    0xF0, 0x90, 0xF0, 0xF0, 0x10, 0x20, 0x40, 0x40, 0xF0, 0x90, 0xF0, 0x90, 0xF0, 0xF0, 0x90, 0xF0,
    0x10, 0xF0, 0xF0, 0x90, 0xF0, 0x90, 0x90, 0xE0, 0x90, 0xE0, 0x90, 0xE0, 0xF0, 0x80, 0x80, 0x80,
    0xF0, 0xE0, 0x90, 0x90, 0x90, 0xE0, 0xF0, 0x80, 0xF0, 0x80, 0xF0, 0xF0, 0x80, 0xF0, 0x80, 0x80,
];

#[test]
fn fresh_interpreter_holds_font_and_zeros() {
    let chip = Chip8::initialize();
    for a in 0..80 {
        assert_eq!(chip.memory(a), FONT[a]);
    }
    for a in 80..4096 {
        assert_eq!(chip.memory(a), 0);
    }
    for x in 0..16 {
        assert_eq!(chip.register(x), 0);
        assert!(!chip.key(x));
    }
    assert_eq!(chip.index(), 0);
    assert_eq!(chip.program_counter(), 0x200);
    assert_eq!(chip.delay_timer(), 0);
    assert_eq!(chip.sound_timer(), 0);
    assert_eq!(chip.stack_depth(), 0);
    assert!(chip.framebuffer().iter().all(|lit| !*lit));
    assert!(!chip.draw_flag());
    assert!(!chip.waiting());
    assert_eq!(chip.status(), Status::Running);
}

#[test]
fn largest_rom_loads_unchanged() {
    let mut rom = Vec::new();
    for k in 0..3584usize {
        rom.push((k * 7 + 3) as u8);
    }
    let mut chip = Chip8::initialize();
    assert_eq!(chip.load_game(&rom), Ok(()));
    for k in 0..3584usize {
        assert_eq!(chip.memory(512 + k), rom[k]);
    }
    for a in 0..80 {
        assert_eq!(chip.memory(a), FONT[a]);
    }
    assert_eq!(chip.program_counter(), 0x200);
}

#[test]
fn oversize_rom_is_refused_and_nothing_changes() {
    let mut chip = boot(&[0x6A11, 0x6007, 0xF015, 0xD005, 0xA123]);
    run(&mut chip, 5);
    chip.set_key(4, true);
    let rom = vec![0xEEu8; 3585];
    assert_eq!(chip.load_game(&rom), Err(Chip8Error::RomTooLarge));
    assert_eq!(chip.register(0xA), 0x11);
    assert_eq!(chip.index(), 0x123);
    assert_eq!(chip.delay_timer(), 7);
    assert_eq!(chip.program_counter(), 0x20A);
    assert_eq!(chip.memory(0x200), 0x6A);
    assert_eq!(chip.memory(0x201), 0x11);
    assert_eq!(chip.memory(0x20A), 0);
    assert!(chip.key(4));
    assert!(chip.draw_flag());
    assert_eq!(chip.status(), Status::Running);
    assert_eq!(chip.framebuffer().iter().filter(|lit| **lit).count(), 14);
}

#[test]
fn empty_rom_loads() {
    let mut chip = Chip8::initialize();
    assert!(!chip.draw_flag());
    assert_eq!(chip.load_game(&[]), Ok(()));
    assert!(chip.draw_flag());
    assert_eq!(chip.memory(0x200), 0);
    assert_eq!(chip.program_counter(), 0x200);
}

#[test]
fn reload_resets_everything_and_zero_fills() {
    let quirks = Quirks { shift_reads_vy: true, index_advances: true, draw_keeps_flag: false };
    let mut chip = Chip8::with_quirks(quirks);
    let long = image(&[0x6A11, 0xA00A, 0xF055, 0x2208, 0xD005, 0x60FF, 0xF015, 0xF018, 0x00EE]);
    assert_eq!(chip.load_game(&long), Ok(()));
    // V0..V0 stored over the font, then call, draw, timers, return, then the
    // word at 0x204 again
    run(&mut chip, 8);
    chip.set_key(9, true);
    assert_eq!(chip.load_game(&[0x12, 0x34]), Ok(()));
    assert_eq!(chip.memory(0x200), 0x12);
    assert_eq!(chip.memory(0x201), 0x34);
    for a in 0x202..4096 {
        assert_eq!(chip.memory(a), 0);
    }
    for a in 0..80 {
        assert_eq!(chip.memory(a), FONT[a]);
    }
    for x in 0..16 {
        assert_eq!(chip.register(x), 0);
        assert!(!chip.key(x));
    }
    assert_eq!(chip.index(), 0);
    assert_eq!(chip.program_counter(), 0x200);
    assert_eq!(chip.delay_timer(), 0);
    assert_eq!(chip.sound_timer(), 0);
    assert_eq!(chip.stack_depth(), 0);
    assert!(chip.framebuffer().iter().all(|lit| !*lit));
    assert!(chip.draw_flag());
    assert_eq!(chip.status(), Status::Running);
    assert_eq!(chip.quirks(), quirks);
}

#[test]
fn reload_recovers_a_halted_interpreter() {
    let mut chip = boot(&[0x00EE]);
    assert_eq!(chip.emulate_cycle(), Err(Chip8Error::StackUnderflow));
    assert_eq!(chip.load_game(&image(&[0x6005])), Ok(()));
    assert_eq!(chip.status(), Status::Running);
    assert_eq!(chip.emulate_cycle(), Ok(()));
    assert_eq!(chip.register(0), 5);
}

#[test]
fn delay_timer_counts_down_to_zero_and_stays() {
    // V0 = 10, delay = V0, then an endless loop
    let mut chip = boot(&[0x600A, 0xF015, 0x1204]);
    run(&mut chip, 2);
    assert_eq!(chip.delay_timer(), 10);
    for tick in 1..=10u8 {
        // a different number of instructions between ticks each time
        run(&mut chip, tick as usize * 3);
        chip.tick_timers();
        assert_eq!(chip.delay_timer(), 10 - tick);
    }
    assert_eq!(chip.delay_timer(), 0);
    chip.tick_timers();
    assert_eq!(chip.delay_timer(), 0);
}

#[test]
fn steps_do_not_move_the_timers() {
    let mut chip = boot(&[0x6005, 0xF015, 0xF018, 0x1206]);
    run(&mut chip, 500);
    assert_eq!(chip.delay_timer(), 5);
    assert_eq!(chip.sound_timer(), 5);
}

#[test]
fn timers_are_independent() {
    let mut chip = boot(&[0x6003, 0xF015, 0x6001, 0xF018]);
    run(&mut chip, 4);
    chip.tick_timers();
    assert_eq!(chip.delay_timer(), 2);
    assert_eq!(chip.sound_timer(), 0);
    chip.tick_timers();
    assert_eq!(chip.delay_timer(), 1);
    assert_eq!(chip.sound_timer(), 0);
}

#[test]
fn sound_signal_is_raised_on_the_tick_that_reaches_one() {
    let mut chip = boot(&[0x6004, 0xF018]);
    run(&mut chip, 2);
    assert!(!chip.tick_timers());
    assert_eq!(chip.sound_timer(), 3);
    assert!(!chip.tick_timers());
    assert_eq!(chip.sound_timer(), 2);
    assert!(chip.tick_timers());
    assert_eq!(chip.sound_timer(), 1);
    assert!(!chip.tick_timers());
    assert_eq!(chip.sound_timer(), 0);
    assert!(!chip.tick_timers());
    assert_eq!(chip.sound_timer(), 0);
}

#[test]
fn timers_tick_while_waiting_and_while_halted() {
    let mut chip = boot(&[0x6005, 0xF015, 0xF00A]);
    run(&mut chip, 3);
    assert!(chip.waiting());
    chip.tick_timers();
    assert_eq!(chip.delay_timer(), 4);
    let mut chip = boot(&[0x6005, 0xF015, 0x00EE]);
    run(&mut chip, 2);
    assert_eq!(chip.emulate_cycle(), Err(Chip8Error::StackUnderflow));
    chip.tick_timers();
    assert_eq!(chip.delay_timer(), 4);
}

#[test]
fn key_wait_suspends_until_a_key_is_down() {
    let mut chip = boot(&[0xF30A, 0x6001]);
    for _ in 0..10 {
        assert_eq!(chip.emulate_cycle(), Ok(()));
        assert_eq!(chip.program_counter(), 0x200);
        assert_eq!(chip.status(), Status::WaitingForKey);
        assert!(chip.waiting());
        assert_eq!(chip.register(3), 0);
    }
    chip.set_key(0xB, true);
    assert_eq!(chip.emulate_cycle(), Ok(()));
    assert_eq!(chip.status(), Status::Running);
    assert!(!chip.waiting());
    assert_eq!(chip.register(3), 0xB);
    assert_eq!(chip.program_counter(), 0x202);
    run(&mut chip, 1);
    assert_eq!(chip.register(0), 1);
}

#[test]
fn key_wait_with_a_key_already_down_does_not_suspend() {
    let mut chip = boot(&[0xF50A]);
    chip.set_key(0, true);
    run(&mut chip, 1);
    assert_eq!(chip.status(), Status::Running);
    assert_eq!(chip.register(5), 0);
    assert_eq!(chip.program_counter(), 0x202);
}

#[test]
fn key_wait_takes_the_lowest_key_down() {
    let mut chip = boot(&[0xF50A]);
    chip.set_key(0xC, true);
    chip.set_key(0x4, true);
    chip.set_key(0x9, true);
    run(&mut chip, 1);
    assert_eq!(chip.register(5), 4);
}

#[test]
fn released_key_is_not_seen() {
    let mut chip = boot(&[0xF50A]);
    chip.set_key(2, true);
    chip.set_key(2, false);
    run(&mut chip, 1);
    assert!(chip.waiting());
    assert!(!chip.key(2));
}

#[test]
fn lowest_key_of_a_latch() {
    let mut keys = [false; 16];
    assert_eq!(lowest_key(&keys), None);
    keys[15] = true;
    assert_eq!(lowest_key(&keys), Some(15));
    keys[6] = true;
    assert_eq!(lowest_key(&keys), Some(6));
    keys[0] = true;
    assert_eq!(lowest_key(&keys), Some(0));
}

#[test]
fn run_cycles_runs_that_many_instructions() {
    // V0 counts the trips round the loop
    let mut chip = boot(&[0x7001, 0x1200]);
    assert_eq!(chip.run_cycles(20), Ok(()));
    assert_eq!(chip.register(0), 10);
    assert_eq!(chip.program_counter(), 0x200);
    assert_eq!(chip.run_cycles(0), Ok(()));
    assert_eq!(chip.register(0), 10);
    assert_eq!(chip.run_cycles(1), Ok(()));
    assert_eq!(chip.register(0), 11);
}

#[test]
fn run_cycles_stops_at_a_key_wait_and_resumes() {
    let mut chip = boot(&[0x6001, 0xF20A, 0x6002, 0x1206]);
    assert_eq!(chip.run_cycles(20), Ok(()));
    assert!(chip.waiting());
    assert_eq!(chip.register(0), 1);
    assert_eq!(chip.program_counter(), 0x202);
    chip.set_key(7, true);
    assert_eq!(chip.run_cycles(20), Ok(()));
    assert!(!chip.waiting());
    assert_eq!(chip.register(2), 7);
    assert_eq!(chip.register(0), 2);
}

#[test]
fn run_cycles_reports_a_halt() {
    let mut chip = boot(&[0x6001, 0x0000, 0x6002]);
    let error = Chip8Error::UnknownOpcode { opcode: 0, pc: 0x202 };
    assert_eq!(chip.run_cycles(20), Err(error));
    assert_eq!(chip.register(0), 1);
    assert_eq!(chip.run_cycles(20), Err(error));
    assert_eq!(chip.run_cycles(0), Err(error));
}

#[test]
fn clear_draw_flag_changes_only_the_flag() {
    let mut chip = boot(&[0x6003, 0xD005]);
    run(&mut chip, 2);
    assert!(chip.draw_flag());
    chip.clear_draw_flag();
    assert!(!chip.draw_flag());
    assert_eq!(chip.framebuffer().iter().filter(|lit| **lit).count(), 14);
    assert_eq!(chip.register(0), 3);
}
