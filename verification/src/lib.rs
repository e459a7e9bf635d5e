//! A CHIP-8 interpreter core with machine-checked instruction semantics.

pub mod chip8;
pub mod clock;
pub mod display;
pub mod error;
pub mod font;
pub mod host;
pub mod keypad;
pub mod laws;
pub mod machine;
pub mod opcode;
mod random;
