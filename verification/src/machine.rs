//! The abstract machine: the state of the interpreter as mathematical
//! values, and the meaning of every operation as a function on that state.

use vstd::prelude::*;
use crate::error::Chip8Error;
use crate::font::font;
use crate::opcode::{decode_spec, Instruction};

verus! {

/// Bytes of memory.
pub const MEMORY_SIZE: usize = 4096;

/// Address at which programs are loaded and start to run.
pub const PROGRAM_START: usize = 512;

/// Largest program image that fits above `PROGRAM_START`.
pub const MAX_ROM_SIZE: usize = 3584;

/// Framebuffer width in pixels.
pub const WIDTH: usize = 64;

/// Framebuffer height in pixels.
pub const HEIGHT: usize = 32;

/// Pixels in the framebuffer, stored row by row.
pub const PIXELS: usize = 2048;

/// Return addresses that the call stack can hold.
pub const STACK_DEPTH: usize = 16;

/// Where the interpreter stands between two steps.
#[derive(Clone, Copy, Debug, PartialEq, Eq, Structural)]
pub enum Status {
    /// The next step executes the instruction at the program counter.
    Running,
    /// A key-wait instruction found no key down. The program counter still
    /// points at it, and each step tries it again.
    WaitingForKey,
    /// A fatal error occurred. No instruction executes any more.
    Halted(Chip8Error),
}

/// Points on which historical interpreters disagree, as explicit switches.
#[derive(Clone, Copy, Debug, PartialEq, Eq, Structural)]
pub struct Quirks {
    /// The shift instructions shift `Vy` into `Vx` instead of shifting `Vx`
    /// in place.
    pub shift_reads_vy: bool,
    /// Register store and load leave `I` advanced past the last byte used.
    pub index_advances: bool,
    /// A draw without collision leaves `VF` as it was instead of clearing it.
    pub draw_keeps_flag: bool,
}

impl Quirks {
    /// The default behaviour: shifts work on `Vx` in place, register store
    /// and load leave `I` alone, and every draw starts by clearing `VF`.
    pub open spec fn standard() -> Quirks {
        Quirks { shift_reads_vy: false, index_advances: false, draw_keeps_flag: false }
    }
}

impl Default for Quirks {
    fn default() -> (q: Quirks)
        ensures
            q == Quirks::standard(),
    {
        Quirks { shift_reads_vy: false, index_advances: false, draw_keeps_flag: false }
    }
}

/// Whether bit `col` of a sprite row is set, counting from the leftmost
/// pixel, which is the most significant bit.
pub open spec fn bit_set(row: u8, col: int) -> bool {
    (row >> ((7 - col) as u8)) & 1 == 1
}

/// The column of a sprite whose left edge is at `vx` that lands on the
/// pixel at `pixel`, counted with wrap-around from 0 to 63.
pub open spec fn sprite_col(vx: int, pixel: int) -> int {
    (pixel % 64 - vx) % 64
}

/// The row of a sprite whose top edge is at `vy` that lands on the pixel at
/// `pixel`, counted with wrap-around from 0 to 31.
pub open spec fn sprite_row(vy: int, pixel: int) -> int {
    (pixel / 64 - vy) % 32
}

/// Whether the sprite of `rows` rows stored at `index`, placed with its top
/// left corner at (`vx`, `vy`), has a set bit on the pixel at `pixel`.
/// Positions wrap around both edges of the 64 by 32 screen.
pub open spec fn sprite_hits(
    memory: Seq<u8>,
    index: int,
    rows: int,
    vx: int,
    vy: int,
    pixel: int,
) -> bool {
    &&& sprite_col(vx, pixel) < 8
    &&& sprite_row(vy, pixel) < rows
    &&& bit_set(memory[index + sprite_row(vy, pixel)], sprite_col(vx, pixel))
}

/// Whether the sprite has a set bit on a pixel that is lit in `screen`, so
/// that drawing it turns that pixel off.
pub open spec fn sprite_collides(
    screen: Seq<bool>,
    memory: Seq<u8>,
    index: int,
    rows: int,
    vx: int,
    vy: int,
) -> bool {
    exists|p: int|
        0 <= p < 2048 && screen[p] && #[trigger] sprite_hits(memory, index, rows, vx, vy, p)
}

/// Whether `key` is the lowest-numbered key that is down.
pub open spec fn is_first_pressed(keys: Seq<bool>, key: int) -> bool {
    &&& 0 <= key < keys.len()
    &&& keys[key]
    &&& forall|j: int| 0 <= j < key ==> !keys[j]
}

/// Whether any key is down.
pub open spec fn any_pressed(keys: Seq<bool>) -> bool {
    exists|k: int| 0 <= k < keys.len() && keys[k]
}

/// The lowest-numbered key that is down, where there is one.
pub open spec fn first_pressed(keys: Seq<bool>) -> int {
    choose|k: int| is_first_pressed(keys, k)
}

/// The lowest-numbered key that is down is the only key that is the first
/// one down.
pub proof fn lemma_first_pressed(keys: Seq<bool>, key: int)
    requires
        is_first_pressed(keys, key),
    ensures
        any_pressed(keys),
        first_pressed(keys) == key,
{
    let other = first_pressed(keys);
    assert(is_first_pressed(keys, other));
    if other < key {
        assert(!keys[other]);
    }
    if key < other {
        assert(!keys[key]);
    }
}

/// The complete state of the interpreter.
#[verifier::ext_equal]
pub struct Machine {
    /// The 4096 bytes of memory.
    pub memory: Seq<u8>,
    /// The registers `V0`..`VF`.
    pub v: Seq<u8>,
    /// The index register `I`.
    pub i: u16,
    /// The program counter.
    pub pc: u16,
    /// The return addresses of the calls in progress, oldest first.
    pub stack: Seq<u16>,
    /// The delay timer.
    pub delay: u8,
    /// The sound timer.
    pub sound: u8,
    /// The framebuffer, row by row: pixel (`x`, `y`) is at `64 * y + x`.
    pub screen: Seq<bool>,
    /// Whether the framebuffer changed since the host last presented it.
    pub dirty: bool,
    /// The keypad: `keys[k]` holds while key `k` is down.
    pub keys: Seq<bool>,
    /// Running, waiting for a key, or halted.
    pub status: Status,
    /// The compatibility switches, fixed when the interpreter is built.
    pub quirks: Quirks,
}

impl Machine {
    /// Every collection has its fixed size and the stack is within its depth.
    pub open spec fn wf(self) -> bool {
        &&& self.memory.len() == 4096
        &&& self.v.len() == 16
        &&& self.stack.len() <= 16
        &&& self.screen.len() == 2048
        &&& self.keys.len() == 16
    }

    /// Memory as it is before any program is loaded: the font at the bottom,
    /// zero everywhere else.
    pub open spec fn blank_memory() -> Seq<u8> {
        Seq::new(4096, |a: int| if a < 80 { font()[a] } else { 0u8 })
    }

    /// Memory with the program image `rom` installed at address 512.
    pub open spec fn memory_with(rom: Seq<u8>) -> Seq<u8> {
        Seq::new(
            4096,
            |a: int|
                if a < 80 {
                    font()[a]
                } else if 512 <= a < 512 + rom.len() {
                    rom[a - 512]
                } else {
                    0u8
                },
        )
    }

    /// The state right after construction.
    pub open spec fn power_on(quirks: Quirks) -> Machine {
        Machine {
            memory: Self::blank_memory(),
            v: Seq::new(16, |k: int| 0u8),
            i: 0,
            pc: 512,
            stack: Seq::empty(),
            delay: 0,
            sound: 0,
            screen: Seq::new(2048, |p: int| false),
            dirty: false,
            keys: Seq::new(16, |k: int| false),
            status: Status::Running,
            quirks,
        }
    }

    /// The state right after `rom` was loaded: as after construction, but
    /// with the program in memory, and with the frame marked as changed,
    /// since whatever the screen showed before is gone.
    pub open spec fn loaded(quirks: Quirks, rom: Seq<u8>) -> Machine {
        Machine { memory: Self::memory_with(rom), dirty: true, ..Self::power_on(quirks) }
    }

    /// The pixel at column `x` of row `y`.
    pub open spec fn pixel(self, x: int, y: int) -> bool {
        self.screen[64 * y + x]
    }

    /// The value of register `Vx`.
    pub open spec fn reg(self, x: u8) -> u8 {
        self.v[x as int]
    }

    /// Whether both bytes of the next instruction lie inside memory.
    pub open spec fn fetchable(self) -> bool {
        self.pc + 1 < 4096
    }

    /// Whether the next step executes an instruction: the machine is not
    /// halted and the instruction can be fetched.
    pub open spec fn runnable(self) -> bool {
        !(self.status is Halted) && self.fetchable()
    }

    /// The instruction word at the program counter, high byte first.
    pub open spec fn opcode(self) -> u16 {
        (self.memory[self.pc as int] as u16) << 8 | (self.memory[self.pc + 1] as u16)
    }

    /// The address of the instruction after the current one.
    pub open spec fn next_pc(self) -> u16 {
        (self.pc + 2) as u16
    }

    /// The address of the instruction after the one that a skip passes over.
    pub open spec fn skip_pc(self) -> u16 {
        (self.pc + 4) as u16
    }

    /// The state after a fatal error: nothing changes but the status.
    pub open spec fn halt(self, error: Chip8Error) -> Machine {
        Machine { status: Status::Halted(error), ..self }
    }

    /// Execution continues at `target`.
    pub open spec fn goto(self, target: u16) -> Machine {
        Machine { pc: target, status: Status::Running, ..self }
    }

    /// Execution continues with the next instruction.
    pub open spec fn advance(self) -> Machine {
        self.goto(self.next_pc())
    }

    /// The next instruction is passed over if `condition` holds.
    pub open spec fn skip_if(self, condition: bool) -> Machine {
        self.goto(if condition { self.skip_pc() } else { self.next_pc() })
    }

    /// `Vx` receives `value`.
    pub open spec fn set_reg(self, x: u8, value: u8) -> Machine {
        Machine { v: self.v.update(x as int, value), ..self.advance() }
    }

    /// `VF` receives `flag`, then `Vx` receives `value`. Where `x` is `F`
    /// the value is what remains.
    pub open spec fn set_flag_and_reg(self, flag: u8, x: u8, value: u8) -> Machine {
        Machine { v: self.v.update(0xF, flag).update(x as int, value), ..self.advance() }
    }

    /// `I` receives `value`.
    pub open spec fn set_index(self, value: u16) -> Machine {
        Machine { i: value, ..self.advance() }
    }

    /// The register that a shift reads: `Vx`, or `Vy` under the shift quirk.
    pub open spec fn shift_source(self, x: u8, y: u8) -> u8 {
        if self.quirks.shift_reads_vy {
            self.reg(y)
        } else {
            self.reg(x)
        }
    }

    /// Whether the key named by the low nibble of `Vx` is down.
    pub open spec fn key_down(self, x: u8) -> bool {
        self.keys[(self.reg(x) & 0x0F) as int]
    }

    /// `00E0`: every pixel goes dark and the frame is marked as changed.
    pub open spec fn clear_screen(self) -> Machine {
        Machine { screen: Seq::new(2048, |p: int| false), dirty: true, ..self.advance() }
    }

    /// `00EE`: execution continues at the newest return address, which
    /// leaves the stack. With an empty stack the machine halts.
    pub open spec fn ret(self) -> Machine {
        if self.stack.len() == 0 {
            self.halt(Chip8Error::StackUnderflow)
        } else {
            Machine { stack: self.stack.drop_last(), ..self.goto(self.stack.last()) }
        }
    }

    /// `2nnn`: the address of the next instruction goes onto the stack and
    /// execution continues at `addr`. With a full stack the machine halts.
    pub open spec fn call(self, addr: u16) -> Machine {
        if self.stack.len() >= 16 {
            self.halt(Chip8Error::StackOverflow)
        } else {
            Machine { stack: self.stack.push(self.next_pc()), ..self.goto(addr) }
        }
    }

    /// Whether the sprite that `Dxyn` draws has a set bit on the pixel at
    /// `pixel`. The position is read from `Vx` and `Vy` as they are before
    /// the instruction touches `VF`.
    pub open spec fn sprite_at(self, x: u8, y: u8, rows: u8, pixel: int) -> bool {
        sprite_hits(
            self.memory,
            self.i as int,
            rows as int,
            self.reg(x) as int,
            self.reg(y) as int,
            pixel,
        )
    }

    /// Whether `Dxyn` turns off a pixel that was lit.
    pub open spec fn collides(self, x: u8, y: u8, rows: u8) -> bool {
        sprite_collides(
            self.screen,
            self.memory,
            self.i as int,
            rows as int,
            self.reg(x) as int,
            self.reg(y) as int,
        )
    }

    /// The value that `Dxyn` leaves in `VF`.
    pub open spec fn collision_flag(self, x: u8, y: u8, rows: u8) -> u8 {
        if self.collides(x, y, rows) {
            1
        } else if self.quirks.draw_keeps_flag {
            self.v[0xF]
        } else {
            0
        }
    }

    /// `Dxyn`: every pixel under a set bit of the sprite is inverted, `VF`
    /// reports a collision, and the frame is marked as changed. A sprite
    /// that reaches past the end of memory halts the machine instead.
    pub open spec fn draw(self, x: u8, y: u8, rows: u8) -> Machine {
        if rows > 0 && self.i + rows > 4096 {
            self.halt(Chip8Error::MemoryOutOfRange)
        } else {
            Machine {
                screen: Seq::new(
                    2048,
                    |p: int| self.screen[p] != self.sprite_at(x, y, rows, p),
                ),
                v: self.v.update(0xF, self.collision_flag(x, y, rows)),
                dirty: true,
                ..self.advance()
            }
        }
    }

    /// `Fx0A`: with a key down, `Vx` receives the lowest such key and
    /// execution goes on. With no key down nothing moves, and the machine
    /// waits.
    pub open spec fn wait_key(self, x: u8) -> Machine {
        if any_pressed(self.keys) {
            self.set_reg(x, first_pressed(self.keys) as u8)
        } else {
            Machine { status: Status::WaitingForKey, ..self }
        }
    }

    /// `Fx33`: the hundreds, tens and ones digits of `Vx` are stored at `I`,
    /// `I + 1` and `I + 2`.
    pub open spec fn store_bcd(self, x: u8) -> Machine {
        if self.i + 2 >= 4096 {
            self.halt(Chip8Error::MemoryOutOfRange)
        } else {
            let value = self.reg(x);
            Machine {
                memory: self.memory.update(self.i as int, value / 100).update(
                    self.i + 1,
                    (value / 10) % 10,
                ).update(self.i + 2, value % 10),
                ..self.advance()
            }
        }
    }

    /// The value of `I` after a register store or load through `Vx`.
    pub open spec fn index_after_transfer(self, x: u8) -> u16 {
        if self.quirks.index_advances {
            (self.i + x + 1) as u16
        } else {
            self.i
        }
    }

    /// `Fx55`: `V0`..`Vx` are stored at `I`..`I + x`.
    pub open spec fn store_registers(self, x: u8) -> Machine {
        if self.i + x >= 4096 {
            self.halt(Chip8Error::MemoryOutOfRange)
        } else {
            Machine {
                memory: Seq::new(
                    4096,
                    |a: int|
                        if self.i <= a <= self.i + x {
                            self.v[a - self.i]
                        } else {
                            self.memory[a]
                        },
                ),
                i: self.index_after_transfer(x),
                ..self.advance()
            }
        }
    }

    /// `Fx65`: `V0`..`Vx` are loaded from `I`..`I + x`.
    pub open spec fn load_registers(self, x: u8) -> Machine {
        if self.i + x >= 4096 {
            self.halt(Chip8Error::MemoryOutOfRange)
        } else {
            Machine {
                v: Seq::new(
                    16,
                    |k: int|
                        if k <= x {
                            self.memory[self.i + k]
                        } else {
                            self.v[k]
                        },
                ),
                i: self.index_after_transfer(x),
                ..self.advance()
            }
        }
    }

    /// The state after `ins` has executed, where `random` is the byte that
    /// the random-number instruction draws. Flags are computed from the
    /// operands as they are before the instruction writes anything.
    pub open spec fn execute(self, ins: Instruction, random: u8) -> Machine {
        match ins {
            Instruction::ClearScreen => self.clear_screen(),
            Instruction::Return => self.ret(),
            Instruction::Jump { addr } => self.goto(addr),
            Instruction::Call { addr } => self.call(addr),
            Instruction::SkipIfEqual { x, byte } => self.skip_if(self.reg(x) == byte),
            Instruction::SkipIfNotEqual { x, byte } => self.skip_if(self.reg(x) != byte),
            Instruction::SkipIfRegistersEqual { x, y } => self.skip_if(self.reg(x) == self.reg(y)),
            Instruction::Load { x, byte } => self.set_reg(x, byte),
            Instruction::AddByte { x, byte } => self.set_reg(
                x,
                ((self.reg(x) + byte) % 256) as u8,
            ),
            Instruction::Move { x, y } => self.set_reg(x, self.reg(y)),
            Instruction::Or { x, y } => self.set_reg(x, self.reg(x) | self.reg(y)),
            Instruction::And { x, y } => self.set_reg(x, self.reg(x) & self.reg(y)),
            Instruction::Xor { x, y } => self.set_reg(x, self.reg(x) ^ self.reg(y)),
            Instruction::Add { x, y } => self.set_flag_and_reg(
                if self.reg(x) + self.reg(y) > 255 { 1 } else { 0 },
                x,
                ((self.reg(x) + self.reg(y)) % 256) as u8,
            ),
            Instruction::Sub { x, y } => self.set_flag_and_reg(
                if self.reg(x) > self.reg(y) { 1 } else { 0 },
                x,
                ((self.reg(x) - self.reg(y)) % 256) as u8,
            ),
            Instruction::ShiftRight { x, y } => self.set_flag_and_reg(
                self.shift_source(x, y) & 1,
                x,
                self.shift_source(x, y) >> 1,
            ),
            Instruction::SubReversed { x, y } => self.set_flag_and_reg(
                if self.reg(y) > self.reg(x) { 1 } else { 0 },
                x,
                ((self.reg(y) - self.reg(x)) % 256) as u8,
            ),
            Instruction::ShiftLeft { x, y } => self.set_flag_and_reg(
                self.shift_source(x, y) >> 7,
                x,
                self.shift_source(x, y) << 1,
            ),
            Instruction::SkipIfRegistersDiffer { x, y } => self.skip_if(self.reg(x) != self.reg(y)),
            Instruction::LoadIndex { addr } => self.set_index(addr),
            Instruction::JumpOffset { addr } => self.goto((addr + self.v[0]) as u16),
            Instruction::Random { x, byte } => self.set_reg(x, random & byte),
            Instruction::Draw { x, y, rows } => self.draw(x, y, rows),
            Instruction::SkipIfKey { x } => self.skip_if(self.key_down(x)),
            Instruction::SkipIfNotKey { x } => self.skip_if(!self.key_down(x)),
            Instruction::ReadDelay { x } => self.set_reg(x, self.delay),
            Instruction::WaitKey { x } => self.wait_key(x),
            Instruction::SetDelay { x } => Machine { delay: self.reg(x), ..self.advance() },
            Instruction::SetSound { x } => Machine { sound: self.reg(x), ..self.advance() },
            Instruction::AddIndex { x } => self.set_index(((self.i + self.reg(x)) % 65536) as u16),
            Instruction::FontAddress { x } => self.set_index((self.reg(x) * 5) as u16),
            Instruction::StoreBcd { x } => self.store_bcd(x),
            Instruction::StoreRegisters { x } => self.store_registers(x),
            Instruction::LoadRegisters { x } => self.load_registers(x),
        }
    }

    /// One fetch-decode-execute cycle.
    ///
    /// A halted machine stays as it is. Otherwise the word at the program
    /// counter is fetched and decoded, and its operation executes with the
    /// program counter already counted as advanced, so that jumps, calls
    /// and returns are not advanced a second time. A fetch outside memory
    /// and a word that stands for no operation halt the machine where it
    /// stands.
    pub open spec fn step(self, random: u8) -> Machine {
        if self.status is Halted {
            self
        } else if !self.fetchable() {
            self.halt(Chip8Error::MemoryOutOfRange)
        } else {
            match decode_spec(self.opcode()) {
                Some(ins) => self.execute(ins, random),
                None => self.halt(
                    Chip8Error::UnknownOpcode { opcode: self.opcode(), pc: self.pc },
                ),
            }
        }
    }

    /// One step for each byte of `randoms`, in order, each step with its
    /// byte as the random one.
    pub open spec fn steps(self, randoms: Seq<u8>) -> Machine
        decreases randoms.len(),
    {
        if randoms.len() == 0 {
            self
        } else {
            self.steps(randoms.drop_last()).step(randoms.last())
        }
    }

    /// Whether the next step draws a random byte.
    pub open spec fn draws_random(self) -> bool {
        &&& !(self.status is Halted)
        &&& self.fetchable()
        &&& decode_spec(self.opcode()) is Some
        &&& decode_spec(self.opcode())->0 is Random
    }

    /// What a step reports: the error of a halted machine, success otherwise.
    pub open spec fn outcome(self) -> Result<(), Chip8Error> {
        match self.status {
            Status::Halted(error) => Err(error),
            _ => Ok(()),
        }
    }

    /// The host has presented the frame.
    pub open spec fn presented(self) -> Machine {
        Machine { dirty: false, ..self }
    }

    /// The host reports that key `key` went down or up.
    pub open spec fn with_key(self, key: int, pressed: bool) -> Machine {
        Machine { keys: self.keys.update(key, pressed), ..self }
    }

    /// `count` sixtieths of a second pass.
    pub open spec fn ticks(self, count: nat) -> Machine
        decreases count,
    {
        if count == 0 {
            self
        } else {
            self.ticks((count - 1) as nat).tick()
        }
    }

    /// One sixtieth of a second passes: each timer that is not yet zero
    /// goes down by one.
    pub open spec fn tick(self) -> Machine {
        Machine {
            delay: if self.delay > 0 { (self.delay - 1) as u8 } else { 0 },
            sound: if self.sound > 0 { (self.sound - 1) as u8 } else { 0 },
            ..self
        }
    }
}

/// One thing that the host does to drive the machine: run a cycle, with the
/// byte that the random-number instruction would draw, or count a tick.
pub enum Drive {
    /// One fetch-decode-execute cycle.
    Cycle { random: u8 },
    /// One sixtieth of a second.
    Tick,
}

/// The number of ticks among `actions`.
pub open spec fn tick_count(actions: Seq<Drive>) -> nat
    decreases actions.len(),
{
    if actions.len() == 0 {
        0
    } else {
        tick_count(actions.drop_last()) + (if actions.last() is Tick {
            1nat
        } else {
            0nat
        })
    }
}

impl Machine {
    /// The state after the host has done `actions`, in order.
    pub open spec fn drive(self, actions: Seq<Drive>) -> Machine
        decreases actions.len(),
    {
        if actions.len() == 0 {
            self
        } else {
            let before = self.drive(actions.drop_last());
            match actions.last() {
                Drive::Cycle { random } => before.step(random),
                Drive::Tick => before.tick(),
            }
        }
    }

    /// Whether the next step executes `Fx15`, which sets the delay timer.
    pub open spec fn sets_delay(self) -> bool {
        &&& self.runnable()
        &&& decode_spec(self.opcode()) is Some
        &&& decode_spec(self.opcode())->0 is SetDelay
    }

    /// Whether the next step executes `Fx18`, which sets the sound timer.
    pub open spec fn sets_sound(self) -> bool {
        &&& self.runnable()
        &&& decode_spec(self.opcode()) is Some
        &&& decode_spec(self.opcode())->0 is SetSound
    }
}

} // verus!
