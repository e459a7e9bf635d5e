//! What the host hands to the interpreter between steps: input events, and
//! the commands that some of them stand for.

use vstd::prelude::*;
use crate::chip8::Chip8;
use crate::keypad::{keypad_key, keypad_key_spec};
use crate::machine::Machine;

verus! {

/// One input event, as the interpreter needs to see it. Keys are named by
/// the lower-case character that they type.
#[derive(Clone, Copy, Debug, PartialEq, Eq, Structural)]
pub enum HostEvent {
    /// The host was asked to close.
    Quit,
    /// The key for `key` went down.
    KeyDown { key: char },
    /// The key for `key` went up.
    KeyUp { key: char },
    /// Any other event.
    Other,
}

/// What the host is asked to do after an event.
#[derive(Clone, Copy, Debug, PartialEq, Eq, Structural)]
pub enum Command {
    /// Nothing: go on with the next event.
    Continue,
    /// Leave the emulation loop.
    Quit,
    /// Load the program again. Bound to `l`.
    Reload,
    /// The first command left to the host. Bound to `j`.
    UserFirst,
    /// The second command left to the host. Bound to `k`.
    UserSecond,
}

/// The command that `event` stands for. Only a key going down gives a
/// command; the three command keys are not keypad keys.
pub open spec fn command_of(event: HostEvent) -> Command {
    match event {
        HostEvent::Quit => Command::Quit,
        HostEvent::KeyDown { key } => if key == 'l' {
            Command::Reload
        } else if key == 'j' {
            Command::UserFirst
        } else if key == 'k' {
            Command::UserSecond
        } else {
            Command::Continue
        },
        _ => Command::Continue,
    }
}

/// The machine after `event`: a keypad key that goes down or up is recorded
/// in the key latch, and every other event leaves the machine alone.
pub open spec fn after_event(m: Machine, event: HostEvent) -> Machine {
    match event {
        HostEvent::KeyDown { key } => match keypad_key_spec(key) {
            Some(k) => m.with_key(k as int, true),
            None => m,
        },
        HostEvent::KeyUp { key } => match keypad_key_spec(key) {
            Some(k) => m.with_key(k as int, false),
            None => m,
        },
        _ => m,
    }
}

/// Takes one input event: records a keypad key that went down or up, and
/// returns the command that the event stands for.
pub fn handle_event(chip: &mut Chip8, event: HostEvent) -> (command: Command)
    ensures
        final(chip)@ == after_event(old(chip)@, event),
        command == command_of(event),
        final(chip)@.wf(),
{
    proof {
        use_type_invariant(&*chip);
        chip.lemma_wf();
    }
    match event {
        HostEvent::Quit => Command::Quit,
        HostEvent::KeyDown { key } => {
            if key == 'l' {
                Command::Reload
            } else if key == 'j' {
                Command::UserFirst
            } else if key == 'k' {
                Command::UserSecond
            } else {
                if let Some(k) = keypad_key(key) {
                    chip.set_key(k as usize, true);
                }
                Command::Continue
            }
        },
        HostEvent::KeyUp { key } => {
            if let Some(k) = keypad_key(key) {
                chip.set_key(k as usize, false);
            }
            Command::Continue
        },
        HostEvent::Other => Command::Continue,
    }
}

} // verus!
