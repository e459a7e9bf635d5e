use chip8::chip8::Chip8;
use chip8::clock::{FrameClock, FRAME_MICROS};
use chip8::host::{handle_event, Command, HostEvent};
use chip8::keypad::keypad_key;
use chip8::opcode::{decode, encode, Instruction};

#[test]
fn keyboard_block_maps_to_the_keypad() {
    let layout = [
        ('1', 0x1), ('2', 0x2), ('3', 0x3), ('4', 0xC),
        ('q', 0x4), ('w', 0x5), ('e', 0x6), ('r', 0xD),
        ('a', 0x7), ('s', 0x8), ('d', 0x9), ('f', 0xE),
        ('z', 0xA), ('x', 0x0), ('c', 0xB), ('v', 0xF),
    ];
    for (c, key) in layout {
        assert_eq!(keypad_key(c), Some(key));
    }
}

#[test]
fn other_characters_are_no_keypad_keys() {
    for c in ['l', 'j', 'k', '5', '0', 'Q', ' ', 'b', '\n'] {
        assert_eq!(keypad_key(c), None);
    }
}

#[test]
fn key_events_reach_the_latch() {
    let mut chip = Chip8::initialize();
    assert_eq!(handle_event(&mut chip, HostEvent::KeyDown { key: 'r' }), Command::Continue);
    assert!(chip.key(0xD));
    assert_eq!(handle_event(&mut chip, HostEvent::KeyDown { key: 'x' }), Command::Continue);
    assert!(chip.key(0x0));
    assert_eq!(handle_event(&mut chip, HostEvent::KeyUp { key: 'r' }), Command::Continue);
    assert!(!chip.key(0xD));
    assert!(chip.key(0x0));
}

#[test]
fn command_keys_and_quit() {
    let mut chip = Chip8::initialize();
    assert_eq!(handle_event(&mut chip, HostEvent::Quit), Command::Quit);
    assert_eq!(handle_event(&mut chip, HostEvent::KeyDown { key: 'l' }), Command::Reload);
    assert_eq!(handle_event(&mut chip, HostEvent::KeyDown { key: 'j' }), Command::UserFirst);
    assert_eq!(handle_event(&mut chip, HostEvent::KeyDown { key: 'k' }), Command::UserSecond);
    assert_eq!(handle_event(&mut chip, HostEvent::KeyUp { key: 'l' }), Command::Continue);
    assert_eq!(handle_event(&mut chip, HostEvent::Other), Command::Continue);
    assert_eq!(handle_event(&mut chip, HostEvent::KeyDown { key: 'p' }), Command::Continue);
    for key in 0..16 {
        assert!(!chip.key(key));
    }
}

#[test]
fn clock_turns_time_into_frames() {
    let mut clock = FrameClock::new();
    assert_eq!(clock.backlog(), 0);
    assert_eq!(clock.advance(10000, 2), 0);
    assert_eq!(clock.backlog(), 10000);
    assert_eq!(clock.advance(10000, 2), 1);
    assert_eq!(clock.backlog(), 3334);
    assert_eq!(clock.advance(FRAME_MICROS, 2), 1);
    assert_eq!(clock.backlog(), 3334);
    assert_eq!(clock.advance(0, 2), 0);
    assert_eq!(clock.backlog(), 3334);
}

#[test]
fn clock_keeps_frames_beyond_the_limit() {
    let mut clock = FrameClock::new();
    assert_eq!(clock.advance(5 * FRAME_MICROS + 7, 2), 2);
    assert_eq!(clock.backlog(), 3 * FRAME_MICROS + 7);
    assert_eq!(clock.advance(0, 2), 2);
    assert_eq!(clock.advance(0, 2), 1);
    assert_eq!(clock.backlog(), 7);
    assert_eq!(clock.advance(100, 0), 0);
    assert_eq!(clock.backlog(), 107);
}

#[test]
fn clock_holds_at_the_largest_total() {
    let mut clock = FrameClock::new();
    assert_eq!(clock.advance(u64::MAX, 0), 0);
    assert_eq!(clock.backlog(), u64::MAX);
    assert_eq!(clock.advance(u64::MAX, 1), 1);
    assert_eq!(clock.backlog(), u64::MAX - FRAME_MICROS);
}

#[test]
fn sixty_frames_a_second() {
    let mut clock = FrameClock::new();
    let mut frames = 0;
    for _ in 0..1000 {
        frames += clock.advance(1000, 2);
    }
    assert_eq!(frames, 60);
    assert_eq!(clock.backlog(), 1_000_000 - 60 * FRAME_MICROS);
}

#[test]
fn decode_reads_every_group() {
    assert_eq!(decode(0x00E0), Some(Instruction::ClearScreen));
    assert_eq!(decode(0x00EE), Some(Instruction::Return));
    assert_eq!(decode(0x1ABC), Some(Instruction::Jump { addr: 0xABC }));
    assert_eq!(decode(0x2FFF), Some(Instruction::Call { addr: 0xFFF }));
    assert_eq!(decode(0x3A12), Some(Instruction::SkipIfEqual { x: 0xA, byte: 0x12 }));
    assert_eq!(decode(0x4B34), Some(Instruction::SkipIfNotEqual { x: 0xB, byte: 0x34 }));
    assert_eq!(decode(0x5CD0), Some(Instruction::SkipIfRegistersEqual { x: 0xC, y: 0xD }));
    assert_eq!(decode(0x6EFF), Some(Instruction::Load { x: 0xE, byte: 0xFF }));
    assert_eq!(decode(0x7F01), Some(Instruction::AddByte { x: 0xF, byte: 0x01 }));
    assert_eq!(decode(0x8120), Some(Instruction::Move { x: 1, y: 2 }));
    assert_eq!(decode(0x8121), Some(Instruction::Or { x: 1, y: 2 }));
    assert_eq!(decode(0x8122), Some(Instruction::And { x: 1, y: 2 }));
    assert_eq!(decode(0x8123), Some(Instruction::Xor { x: 1, y: 2 }));
    assert_eq!(decode(0x8124), Some(Instruction::Add { x: 1, y: 2 }));
    assert_eq!(decode(0x8125), Some(Instruction::Sub { x: 1, y: 2 }));
    assert_eq!(decode(0x8126), Some(Instruction::ShiftRight { x: 1, y: 2 }));
    assert_eq!(decode(0x8127), Some(Instruction::SubReversed { x: 1, y: 2 }));
    assert_eq!(decode(0x812E), Some(Instruction::ShiftLeft { x: 1, y: 2 }));
    assert_eq!(decode(0x9340), Some(Instruction::SkipIfRegistersDiffer { x: 3, y: 4 }));
    assert_eq!(decode(0xA123), Some(Instruction::LoadIndex { addr: 0x123 }));
    assert_eq!(decode(0xB456), Some(Instruction::JumpOffset { addr: 0x456 }));
    assert_eq!(decode(0xC7F0), Some(Instruction::Random { x: 7, byte: 0xF0 }));
    assert_eq!(decode(0xD89A), Some(Instruction::Draw { x: 8, y: 9, rows: 0xA }));
    assert_eq!(decode(0xE59E), Some(Instruction::SkipIfKey { x: 5 }));
    assert_eq!(decode(0xE6A1), Some(Instruction::SkipIfNotKey { x: 6 }));
    assert_eq!(decode(0xF107), Some(Instruction::ReadDelay { x: 1 }));
    assert_eq!(decode(0xF20A), Some(Instruction::WaitKey { x: 2 }));
    assert_eq!(decode(0xF315), Some(Instruction::SetDelay { x: 3 }));
    assert_eq!(decode(0xF418), Some(Instruction::SetSound { x: 4 }));
    assert_eq!(decode(0xF51E), Some(Instruction::AddIndex { x: 5 }));
    assert_eq!(decode(0xF629), Some(Instruction::FontAddress { x: 6 }));
    assert_eq!(decode(0xF733), Some(Instruction::StoreBcd { x: 7 }));
    assert_eq!(decode(0xF855), Some(Instruction::StoreRegisters { x: 8 }));
    assert_eq!(decode(0xF965), Some(Instruction::LoadRegisters { x: 9 }));
}

#[test]
fn decode_refuses_undefined_words() {
    for word in [0x0000u16, 0x00E1, 0x00EF, 0x01E0, 0x0FFF, 0x8128, 0x812D, 0x812F, 0xE09F,
        0xE0A0, 0xE000, 0xF000, 0xF008, 0xF034, 0xF056, 0xF066, 0xF0FF]
    {
        assert_eq!(decode(word), None);
    }
}

#[test]
fn register_comparisons_ignore_the_low_nibble() {
    assert_eq!(decode(0x5127), Some(Instruction::SkipIfRegistersEqual { x: 1, y: 2 }));
    assert_eq!(decode(0x912F), Some(Instruction::SkipIfRegistersDiffer { x: 1, y: 2 }));
}

#[test]
fn encode_gives_the_documented_words() {
    assert_eq!(encode(Instruction::ClearScreen), 0x00E0);
    assert_eq!(encode(Instruction::Return), 0x00EE);
    assert_eq!(encode(Instruction::Jump { addr: 0x234 }), 0x1234);
    assert_eq!(encode(Instruction::Load { x: 0xA, byte: 0x5C }), 0x6A5C);
    assert_eq!(encode(Instruction::ShiftLeft { x: 3, y: 4 }), 0x834E);
    assert_eq!(encode(Instruction::SkipIfRegistersEqual { x: 3, y: 4 }), 0x5340);
    assert_eq!(encode(Instruction::Draw { x: 1, y: 2, rows: 0xF }), 0xD12F);
    assert_eq!(encode(Instruction::SkipIfNotKey { x: 0xB }), 0xEBA1);
    assert_eq!(encode(Instruction::LoadRegisters { x: 0xF }), 0xFF65);
}

#[test]
fn every_word_that_decodes_encodes_back() {
    for word in 0..=0xFFFFu16 {
        if let Some(ins) = decode(word) {
            let back = encode(ins);
            assert_eq!(decode(back), Some(ins));
            let group = word >> 12;
            if group == 5 || group == 9 {
                assert_eq!(back, word & 0xFFF0);
            } else {
                assert_eq!(back, word);
            }
        }
    }
}
