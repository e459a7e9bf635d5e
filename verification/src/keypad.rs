//! The hexadecimal keypad and the keyboard layout that stands for it.
//!
//! The sixteen keys are laid out as on the COSMAC VIP, and the left four
//! columns of a keyboard take their places:
//!
//! ```text
//! 1 2 3 C        1 2 3 4
//! 4 5 6 D        q w e r
//! 7 8 9 E        a s d f
//! A 0 B F        z x c v
//! ```

use vstd::prelude::*;

verus! {

/// The character that stands for each keypad key, by key number.
pub open spec fn layout() -> Seq<char> {
    seq!['x', '1', '2', '3', 'q', 'w', 'e', 'a', 's', 'd', 'z', 'c', '4', 'r', 'f', 'v']
}

/// Whether the character `c` stands for keypad key `k`.
pub open spec fn stands_for(c: char, k: int) -> bool {
    0 <= k < 16 && layout()[k] == c
}

/// The keypad key that the character `c` stands for, if any.
pub open spec fn keypad_key_spec(c: char) -> Option<u8> {
    if exists|k: int| stands_for(c, k) {
        Some((choose|k: int| stands_for(c, k)) as u8)
    } else {
        None
    }
}

/// The keypad key that the character `c` stands for, if any.
pub fn keypad_key(c: char) -> (key: Option<u8>)
    ensures
        key == keypad_key_spec(c),
        key matches Some(k) ==> stands_for(c, k as int),
{
    let key: Option<u8> = match c {
        '1' => Some(0x1),
        '2' => Some(0x2),
        '3' => Some(0x3),
        '4' => Some(0xC),
        'q' => Some(0x4),
        'w' => Some(0x5),
        'e' => Some(0x6),
        'r' => Some(0xD),
        'a' => Some(0x7),
        's' => Some(0x8),
        'd' => Some(0x9),
        'f' => Some(0xE),
        'z' => Some(0xA),
        'x' => Some(0x0),
        'c' => Some(0xB),
        'v' => Some(0xF),
        _ => None,
    };
    proof {
        match key {
            Some(k) => {
                assert(stands_for(c, k as int));
                let other = choose|k: int| stands_for(c, k);
                law_layout_is_injective(other, k as int);
            },
            None => {
                assert forall|k: int| !stands_for(c, k) by {}
            },
        }
    }
    key
}

/// No character stands for two keys.
pub proof fn law_layout_is_injective(j: int, k: int)
    requires
        0 <= j < 16,
        0 <= k < 16,
        layout()[j] == layout()[k],
    ensures
        j == k,
{
}

} // verus!
