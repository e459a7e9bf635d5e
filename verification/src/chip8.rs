//! The interpreter: executable state and the operations that the host calls.

use vstd::prelude::*;
use crate::display::draw_sprite;
use crate::error::Chip8Error;
use crate::font::{font, font_table};
use crate::laws::{law_halted_is_terminal, law_idle_steps, law_steps_compose, law_waiting_is_idle};
use crate::machine::{
    any_pressed, is_first_pressed, lemma_first_pressed, Machine, Quirks, Status, HEIGHT,
    MAX_ROM_SIZE, MEMORY_SIZE, PIXELS, PROGRAM_START, STACK_DEPTH, WIDTH,
};
use crate::opcode::{decode, Instruction};
use crate::random::random_byte;

verus! {

/// A CHIP-8 interpreter.
///
/// The host owns one value of this type and drives it: `emulate_cycle` for
/// every instruction, `tick_timers` sixty times a second, `set_key` whenever
/// the keypad changes, and the read-only accessors to present a frame.
pub struct Chip8 {
    memory: [u8; MEMORY_SIZE],
    v: [u8; 16],
    i: u16,
    pc: u16,
    dt: u8,
    st: u8,
    stack: [u16; STACK_DEPTH],
    sp: usize,
    gfx: [bool; PIXELS],
    draw_flag: bool,
    status: Status,
    keys: [bool; 16],
    quirks: Quirks,
}

impl View for Chip8 {
    type V = Machine;

    closed spec fn view(&self) -> Machine {
        Machine {
            memory: self.memory@,
            v: self.v@,
            i: self.i,
            pc: self.pc,
            stack: self.stack@.take(self.sp as int),
            delay: self.dt,
            sound: self.st,
            screen: self.gfx@,
            dirty: self.draw_flag,
            keys: self.keys@,
            status: self.status,
            quirks: self.quirks,
        }
    }
}

/// Finds the lowest-numbered key that is down.
pub fn lowest_key(keys: &[bool; 16]) -> (found: Option<u8>)
    ensures
        match found {
            Some(key) => is_first_pressed(keys@, key as int),
            None => !any_pressed(keys@),
        },
{
    let mut key: u8 = 0;
    while key < 16
        invariant
            key <= 16,
            forall|j: int| 0 <= j < key ==> !keys@[j],
        decreases 16 - key,
    {
        if keys[key as usize] {
            return Some(key);
        }
        key = key + 1;
    }
    None
}

/// The sum of two bytes, modulo 256.
fn wrapping_sum(a: u8, b: u8) -> (sum: u8)
    ensures
        sum == ((a + b) % 256) as u8,
{
    a.wrapping_add(b)
}

/// The difference of two bytes, modulo 256.
fn wrapping_difference(a: u8, b: u8) -> (difference: u8)
    ensures
        difference == ((a - b) % 256) as u8,
{
    a.wrapping_sub(b)
}

/// An index register moved forward by a byte, modulo 65536.
fn wrapping_index(index: u16, offset: u8) -> (sum: u16)
    ensures
        sum == ((index + offset) % 65536) as u16,
{
    index.wrapping_add(offset as u16)
}

/// Memory before any program is loaded.
fn blank_memory() -> (memory: [u8; MEMORY_SIZE])
    ensures
        memory@ == Machine::blank_memory(),
{
    let table: [u8; 80] = font_table();
    let mut memory: [u8; MEMORY_SIZE] = [0; MEMORY_SIZE];
    let mut a: usize = 0;
    while a < 80
        invariant
            a <= 80,
            table@ == font(),
            forall|b: int| 0 <= b < a ==> memory@[b] == font()[b],
            forall|b: int| a <= b < 4096 ==> memory@[b] == 0,
        decreases 80 - a,
    {
        memory[a] = table[a];
        a = a + 1;
    }
    assert(memory@ =~= Machine::blank_memory());
    memory
}

/// Memory with the program image `rom` installed.
fn memory_with(rom: &[u8]) -> (memory: [u8; MEMORY_SIZE])
    requires
        rom@.len() <= MAX_ROM_SIZE,
    ensures
        memory@ == Machine::memory_with(rom@),
{
    let mut memory: [u8; MEMORY_SIZE] = blank_memory();
    let mut k: usize = 0;
    while k < rom.len()
        invariant
            k <= rom@.len() <= MAX_ROM_SIZE,
            forall|b: int| 0 <= b < 512 ==> memory@[b] == Machine::blank_memory()[b],
            forall|b: int| 512 <= b < 512 + k ==> memory@[b] == rom@[b - 512],
            forall|b: int| 512 + k <= b < 4096 ==> memory@[b] == 0,
        decreases rom@.len() - k,
    {
        memory[PROGRAM_START + k] = rom[k];
        k = k + 1;
    }
    assert(memory@ =~= Machine::memory_with(rom@));
    memory
}

impl Chip8 {
    /// What holds of every interpreter: the stack pointer is within the
    /// stack.
    #[verifier::type_invariant]
    pub closed spec fn inv(self) -> bool {
        self.sp <= STACK_DEPTH
    }

    /// The state of every interpreter is well formed.
    pub proof fn lemma_wf(self)
        requires
            self.inv(),
        ensures
            self@.wf(),
    {
    }

    /// A fresh interpreter with the default behaviour on every quirk: the
    /// font in low memory, everything else zero, ready to run from `0x200`.
    pub fn initialize() -> (chip: Chip8)
        ensures
            chip@ == Machine::power_on(Quirks::standard()),
            chip@.wf(),
    {
        Self::with_quirks(Quirks::default())
    }

    /// A fresh interpreter with the given compatibility switches.
    pub fn with_quirks(quirks: Quirks) -> (chip: Chip8)
        ensures
            chip@ == Machine::power_on(quirks),
            chip@.wf(),
    {
        let chip = Chip8 {
            memory: blank_memory(),
            v: [0; 16],
            i: 0,
            pc: 512,
            dt: 0,
            st: 0,
            stack: [0; STACK_DEPTH],
            sp: 0,
            gfx: [false; PIXELS],
            draw_flag: false,
            status: Status::Running,
            keys: [false; 16],
            quirks,
        };
        assert(chip@ =~= Machine::power_on(quirks));
        chip
    }

    /// Loads the program image `rom` at address `0x200` and resets
    /// everything else, as if the interpreter had just been built with the
    /// same compatibility switches; the blank frame is marked as changed.
    /// An image of more than 3584 bytes is refused, and the interpreter
    /// stays as it was.
    pub fn load_game(&mut self, rom: &[u8]) -> (res: Result<(), Chip8Error>)
        ensures
            rom@.len() > MAX_ROM_SIZE ==> res == Err::<(), Chip8Error>(Chip8Error::RomTooLarge)
                && final(self)@ == old(self)@,
            rom@.len() <= MAX_ROM_SIZE ==> res == Ok::<(), Chip8Error>(()) && final(self)@
                == Machine::loaded(old(self)@.quirks, rom@),
            final(self)@.wf(),
    {
        proof {
            use_type_invariant(&*self);
        }
        if rom.len() > MAX_ROM_SIZE {
            return Err(Chip8Error::RomTooLarge);
        }
        let memory: [u8; MEMORY_SIZE] = memory_with(rom);
        self.sp = 0;
        self.memory = memory;
        self.v = [0; 16];
        self.i = 0;
        self.pc = 512;
        self.dt = 0;
        self.st = 0;
        self.stack = [0; STACK_DEPTH];
        self.gfx = [false; PIXELS];
        self.draw_flag = true;
        self.status = Status::Running;
        self.keys = [false; 16];
        assert(self@ =~= Machine::loaded(old(self)@.quirks, rom@));
        Ok(())
    }

    /// The value of register `Vx`.
    fn reg(&self, x: u8) -> (value: u8)
        requires
            x < 16,
        ensures
            value == self@.reg(x),
    {
        self.v[x as usize]
    }

    /// Halts with `error`, leaving everything else as it is.
    fn halt(&mut self, error: Chip8Error) -> (res: Result<(), Chip8Error>)
        ensures
            final(self)@ == old(self)@.halt(error),
            res == Err::<(), Chip8Error>(error),
    {
        proof {
            use_type_invariant(&*self);
        }
        self.status = Status::Halted(error);
        Err(error)
    }

    fn goto(&mut self, target: u16)
        ensures
            final(self)@ == old(self)@.goto(target),
    {
        proof {
            use_type_invariant(&*self);
        }
        self.pc = target;
        self.status = Status::Running;
    }

    fn advance(&mut self)
        requires
            old(self)@.fetchable(),
        ensures
            final(self)@ == old(self)@.advance(),
    {
        let target: u16 = self.pc + 2;
        self.goto(target);
    }

    fn skip_if(&mut self, condition: bool)
        requires
            old(self)@.fetchable(),
        ensures
            final(self)@ == old(self)@.skip_if(condition),
    {
        let target: u16 = if condition {
            self.pc + 4
        } else {
            self.pc + 2
        };
        self.goto(target);
    }

    fn set_reg(&mut self, x: u8, value: u8)
        requires
            x < 16,
            old(self)@.fetchable(),
        ensures
            final(self)@ == old(self)@.set_reg(x, value),
    {
        proof {
            use_type_invariant(&*self);
        }
        self.v[x as usize] = value;
        self.advance();
    }

    fn set_flag_and_reg(&mut self, flag: u8, x: u8, value: u8)
        requires
            x < 16,
            old(self)@.fetchable(),
        ensures
            final(self)@ == old(self)@.set_flag_and_reg(flag, x, value),
    {
        proof {
            use_type_invariant(&*self);
        }
        self.v[0xF] = flag;
        self.v[x as usize] = value;
        self.advance();
    }

    fn set_index(&mut self, value: u16)
        requires
            old(self)@.fetchable(),
        ensures
            final(self)@ == old(self)@.set_index(value),
    {
        proof {
            use_type_invariant(&*self);
        }
        self.i = value;
        self.advance();
    }

    fn shift_source(&self, x: u8, y: u8) -> (value: u8)
        requires
            x < 16,
            y < 16,
        ensures
            value == self@.shift_source(x, y),
    {
        if self.quirks.shift_reads_vy {
            self.reg(y)
        } else {
            self.reg(x)
        }
    }

    fn key_down(&self, x: u8) -> (down: bool)
        requires
            x < 16,
        ensures
            down == self@.key_down(x),
    {
        let value: u8 = self.reg(x);
        let key: u8 = value & 0x0F;
        assert(value & 0x0F < 16) by (bit_vector);
        self.keys[key as usize]
    }

    fn clear_screen(&mut self)
        requires
            old(self)@.fetchable(),
        ensures
            final(self)@ == old(self)@.clear_screen(),
    {
        proof {
            use_type_invariant(&*self);
        }
        self.gfx = [false; PIXELS];
        self.draw_flag = true;
        self.advance();
        assert(self@ =~= old(self)@.clear_screen());
    }

    fn ret(&mut self) -> (res: Result<(), Chip8Error>)
        ensures
            final(self)@ == old(self)@.ret(),
            res == final(self)@.outcome(),
    {
        proof {
            use_type_invariant(&*self);
        }
        if self.sp == 0 {
            return self.halt(Chip8Error::StackUnderflow);
        }
        self.sp = self.sp - 1;
        let target: u16 = self.stack[self.sp];
        self.goto(target);
        assert(self@ =~= old(self)@.ret());
        Ok(())
    }

    fn call(&mut self, addr: u16) -> (res: Result<(), Chip8Error>)
        requires
            old(self)@.fetchable(),
        ensures
            final(self)@ == old(self)@.call(addr),
            res == final(self)@.outcome(),
    {
        proof {
            use_type_invariant(&*self);
        }
        if self.sp >= STACK_DEPTH {
            return self.halt(Chip8Error::StackOverflow);
        }
        self.stack[self.sp] = self.pc + 2;
        self.sp = self.sp + 1;
        self.goto(addr);
        assert(self@ =~= old(self)@.call(addr));
        Ok(())
    }

    fn draw(&mut self, x: u8, y: u8, rows: u8) -> (res: Result<(), Chip8Error>)
        requires
            x < 16,
            y < 16,
            rows < 16,
            old(self)@.fetchable(),
        ensures
            final(self)@ == old(self)@.draw(x, y, rows),
            res == final(self)@.outcome(),
    {
        proof {
            use_type_invariant(&*self);
        }
        if rows > 0 && self.i as usize + rows as usize > MEMORY_SIZE {
            return self.halt(Chip8Error::MemoryOutOfRange);
        }
        let vx: u8 = self.reg(x);
        let vy: u8 = self.reg(y);
        let collision: bool = draw_sprite(
            &mut self.gfx,
            &self.memory,
            self.i as usize,
            rows,
            vx,
            vy,
        );
        if collision {
            self.v[0xF] = 1;
        } else if !self.quirks.draw_keeps_flag {
            self.v[0xF] = 0;
        }
        self.draw_flag = true;
        self.advance();
        proof {
            assert(self@ =~= old(self)@.draw(x, y, rows));
        }
        Ok(())
    }

    fn wait_key(&mut self, x: u8)
        requires
            x < 16,
            old(self)@.fetchable(),
        ensures
            final(self)@ == old(self)@.wait_key(x),
    {
        proof {
            use_type_invariant(&*self);
        }
        match lowest_key(&self.keys) {
            Some(key) => {
                proof {
                    lemma_first_pressed(self.keys@, key as int);
                }
                self.set_reg(x, key);
            },
            None => {
                self.status = Status::WaitingForKey;
            },
        }
    }

    fn store_bcd(&mut self, x: u8) -> (res: Result<(), Chip8Error>)
        requires
            x < 16,
            old(self)@.fetchable(),
        ensures
            final(self)@ == old(self)@.store_bcd(x),
            res == final(self)@.outcome(),
    {
        proof {
            use_type_invariant(&*self);
        }
        let at: usize = self.i as usize;
        if at + 2 >= MEMORY_SIZE {
            return self.halt(Chip8Error::MemoryOutOfRange);
        }
        let value: u8 = self.reg(x);
        self.memory[at] = value / 100;
        self.memory[at + 1] = (value / 10) % 10;
        self.memory[at + 2] = value % 10;
        self.advance();
        assert(self@ =~= old(self)@.store_bcd(x));
        Ok(())
    }

    fn index_after_transfer(&self, x: u8) -> (value: u16)
        requires
            x < 16,
            self@.i + x < 4096,
        ensures
            value == self@.index_after_transfer(x),
    {
        if self.quirks.index_advances {
            self.i + x as u16 + 1
        } else {
            self.i
        }
    }

    fn store_registers(&mut self, x: u8) -> (res: Result<(), Chip8Error>)
        requires
            x < 16,
            old(self)@.fetchable(),
        ensures
            final(self)@ == old(self)@.store_registers(x),
            res == final(self)@.outcome(),
    {
        proof {
            use_type_invariant(&*self);
        }
        let at: usize = self.i as usize;
        if at + x as usize >= MEMORY_SIZE {
            return self.halt(Chip8Error::MemoryOutOfRange);
        }
        let mut k: usize = 0;
        while k <= x as usize
            invariant
                x < 16,
                k <= x + 1,
                at + x < 4096,
                at == old(self).i,
                self.inv(),
                self.v == old(self).v,
                self.i == old(self).i,
                self.pc == old(self).pc,
                self.dt == old(self).dt,
                self.st == old(self).st,
                self.stack == old(self).stack,
                self.sp == old(self).sp,
                self.gfx == old(self).gfx,
                self.draw_flag == old(self).draw_flag,
                self.status == old(self).status,
                self.keys == old(self).keys,
                self.quirks == old(self).quirks,
                forall|a: int|
                    0 <= a < 4096 ==> self.memory@[a] == if at <= a < at + k {
                        old(self).v@[a - at]
                    } else {
                        old(self).memory@[a]
                    },
            decreases x + 1 - k,
        {
            self.memory[at + k] = self.v[k];
            k = k + 1;
        }
        let index: u16 = self.index_after_transfer(x);
        self.i = index;
        self.advance();
        assert(self@ =~= old(self)@.store_registers(x));
        Ok(())
    }

    fn load_registers(&mut self, x: u8) -> (res: Result<(), Chip8Error>)
        requires
            x < 16,
            old(self)@.fetchable(),
        ensures
            final(self)@ == old(self)@.load_registers(x),
            res == final(self)@.outcome(),
    {
        proof {
            use_type_invariant(&*self);
        }
        let at: usize = self.i as usize;
        if at + x as usize >= MEMORY_SIZE {
            return self.halt(Chip8Error::MemoryOutOfRange);
        }
        let mut k: usize = 0;
        while k <= x as usize
            invariant
                x < 16,
                k <= x + 1,
                at + x < 4096,
                at == old(self).i,
                self.inv(),
                self.memory == old(self).memory,
                self.i == old(self).i,
                self.pc == old(self).pc,
                self.dt == old(self).dt,
                self.st == old(self).st,
                self.stack == old(self).stack,
                self.sp == old(self).sp,
                self.gfx == old(self).gfx,
                self.draw_flag == old(self).draw_flag,
                self.status == old(self).status,
                self.keys == old(self).keys,
                self.quirks == old(self).quirks,
                forall|j: int|
                    0 <= j < 16 ==> self.v@[j] == if j < k {
                        old(self).memory@[at + j]
                    } else {
                        old(self).v@[j]
                    },
            decreases x + 1 - k,
        {
            self.v[k] = self.memory[at + k];
            k = k + 1;
        }
        let index: u16 = self.index_after_transfer(x);
        self.i = index;
        self.advance();
        assert(self@ =~= old(self)@.load_registers(x));
        Ok(())
    }

    /// Executes `ins`, with `random` as the byte that the random-number
    /// instruction draws.
    fn execute(&mut self, ins: Instruction, random: u8) -> (res: Result<(), Chip8Error>)
        requires
            ins.wf(),
            old(self)@.fetchable(),
        ensures
            final(self)@ == old(self)@.execute(ins, random),
            res == final(self)@.outcome(),
    {
        match ins {
            Instruction::ClearScreen => {
                self.clear_screen();
                Ok(())
            },
            Instruction::Return => self.ret(),
            Instruction::Jump { addr } => {
                self.goto(addr);
                Ok(())
            },
            Instruction::Call { addr } => self.call(addr),
            Instruction::SkipIfEqual { x, byte } => {
                let condition: bool = self.reg(x) == byte;
                self.skip_if(condition);
                Ok(())
            },
            Instruction::SkipIfNotEqual { x, byte } => {
                let condition: bool = self.reg(x) != byte;
                self.skip_if(condition);
                Ok(())
            },
            Instruction::SkipIfRegistersEqual { x, y } => {
                let condition: bool = self.reg(x) == self.reg(y);
                self.skip_if(condition);
                Ok(())
            },
            Instruction::Load { x, byte } => {
                self.set_reg(x, byte);
                Ok(())
            },
            Instruction::AddByte { x, byte } => {
                let value: u8 = wrapping_sum(self.reg(x), byte);
                self.set_reg(x, value);
                Ok(())
            },
            Instruction::Move { x, y } => {
                let value: u8 = self.reg(y);
                self.set_reg(x, value);
                Ok(())
            },
            Instruction::Or { x, y } => {
                let value: u8 = self.reg(x) | self.reg(y);
                self.set_reg(x, value);
                Ok(())
            },
            Instruction::And { x, y } => {
                let value: u8 = self.reg(x) & self.reg(y);
                self.set_reg(x, value);
                Ok(())
            },
            Instruction::Xor { x, y } => {
                let value: u8 = self.reg(x) ^ self.reg(y);
                self.set_reg(x, value);
                Ok(())
            },
            Instruction::Add { x, y } => {
                let a: u8 = self.reg(x);
                let b: u8 = self.reg(y);
                let flag: u8 = if a as u16 + b as u16 > 255 {
                    1
                } else {
                    0
                };
                self.set_flag_and_reg(flag, x, wrapping_sum(a, b));
                Ok(())
            },
            Instruction::Sub { x, y } => {
                let a: u8 = self.reg(x);
                let b: u8 = self.reg(y);
                let flag: u8 = if a > b {
                    1
                } else {
                    0
                };
                self.set_flag_and_reg(flag, x, wrapping_difference(a, b));
                Ok(())
            },
            Instruction::ShiftRight { x, y } => {
                let source: u8 = self.shift_source(x, y);
                self.set_flag_and_reg(source & 1, x, source >> 1);
                Ok(())
            },
            Instruction::SubReversed { x, y } => {
                let a: u8 = self.reg(x);
                let b: u8 = self.reg(y);
                let flag: u8 = if b > a {
                    1
                } else {
                    0
                };
                self.set_flag_and_reg(flag, x, wrapping_difference(b, a));
                Ok(())
            },
            Instruction::ShiftLeft { x, y } => {
                let source: u8 = self.shift_source(x, y);
                self.set_flag_and_reg(source >> 7, x, source << 1);
                Ok(())
            },
            Instruction::SkipIfRegistersDiffer { x, y } => {
                let condition: bool = self.reg(x) != self.reg(y);
                self.skip_if(condition);
                Ok(())
            },
            Instruction::LoadIndex { addr } => {
                self.set_index(addr);
                Ok(())
            },
            Instruction::JumpOffset { addr } => {
                let target: u16 = addr + self.reg(0) as u16;
                self.goto(target);
                Ok(())
            },
            Instruction::Random { x, byte } => {
                self.set_reg(x, random & byte);
                Ok(())
            },
            Instruction::Draw { x, y, rows } => self.draw(x, y, rows),
            Instruction::SkipIfKey { x } => {
                let condition: bool = self.key_down(x);
                self.skip_if(condition);
                Ok(())
            },
            Instruction::SkipIfNotKey { x } => {
                let condition: bool = !self.key_down(x);
                self.skip_if(condition);
                Ok(())
            },
            Instruction::ReadDelay { x } => {
                let value: u8 = self.dt;
                self.set_reg(x, value);
                Ok(())
            },
            Instruction::WaitKey { x } => {
                self.wait_key(x);
                Ok(())
            },
            Instruction::SetDelay { x } => {
                proof {
                    use_type_invariant(&*self);
                }
                self.dt = self.reg(x);
                self.advance();
                Ok(())
            },
            Instruction::SetSound { x } => {
                proof {
                    use_type_invariant(&*self);
                }
                self.st = self.reg(x);
                self.advance();
                Ok(())
            },
            Instruction::AddIndex { x } => {
                let value: u16 = wrapping_index(self.i, self.reg(x));
                self.set_index(value);
                Ok(())
            },
            Instruction::FontAddress { x } => {
                let value: u16 = self.reg(x) as u16 * 5;
                self.set_index(value);
                Ok(())
            },
            Instruction::StoreBcd { x } => self.store_bcd(x),
            Instruction::StoreRegisters { x } => self.store_registers(x),
            Instruction::LoadRegisters { x } => self.load_registers(x),
        }
    }

    /// The instruction word at the program counter.
    fn fetch(&self) -> (opcode: u16)
        requires
            self@.fetchable(),
        ensures
            opcode == self@.opcode(),
    {
        let high: u16 = self.memory[self.pc as usize] as u16;
        let low: u16 = self.memory[self.pc as usize + 1] as u16;
        high << 8 | low
    }

    /// Whether the next cycle executes the random-number instruction.
    fn draws_random(&self) -> (draws: bool)
        ensures
            draws == self@.draws_random(),
    {
        match self.status {
            Status::Halted(_) => false,
            _ => {
                if self.pc as usize + 1 >= MEMORY_SIZE {
                    false
                } else {
                    match decode(self.fetch()) {
                        Some(Instruction::Random { x, byte }) => true,
                        _ => false,
                    }
                }
            },
        }
    }

    /// Runs one fetch-decode-execute cycle, with `random` as the byte that
    /// the random-number instruction draws if it is the one that executes.
    ///
    /// Returns the error of a halted interpreter, also on every later call.
    pub fn emulate_cycle_with(&mut self, random: u8) -> (res: Result<(), Chip8Error>)
        ensures
            final(self)@ == old(self)@.step(random),
            res == final(self)@.outcome(),
            final(self)@.wf(),
    {
        proof {
            use_type_invariant(&*self);
        }
        if let Status::Halted(error) = self.status {
            return Err(error);
        }
        if self.pc as usize + 1 >= MEMORY_SIZE {
            return self.halt(Chip8Error::MemoryOutOfRange);
        }
        let opcode: u16 = self.fetch();
        let res = match decode(opcode) {
            Some(ins) => self.execute(ins, random),
            None => {
                let pc: u16 = self.pc;
                self.halt(Chip8Error::UnknownOpcode { opcode, pc })
            },
        };
        proof {
            use_type_invariant(&*self);
        }
        res
    }

    /// Runs one fetch-decode-execute cycle. The random-number instruction
    /// draws its byte from the thread-local generator of the `rand` crate.
    ///
    /// Returns the error of a halted interpreter, also on every later call.
    pub fn emulate_cycle(&mut self) -> (res: Result<(), Chip8Error>)
        ensures
            exists|random: u8| final(self)@ == #[trigger] old(self)@.step(random),
            !old(self)@.draws_random() ==> final(self)@ == old(self)@.step(0),
            res == final(self)@.outcome(),
            final(self)@.wf(),
    {
        let random: u8 = if self.draws_random() {
            random_byte()
        } else {
            0
        };
        self.emulate_cycle_with(random)
    }

    /// Counts one sixtieth of a second: each timer that is not yet zero goes
    /// down by one. Returns whether this tick brought the sound timer to
    /// exactly one.
    pub fn tick_timers(&mut self) -> (sound_on: bool)
        ensures
            final(self)@ == old(self)@.tick(),
            sound_on == (old(self)@.sound == 2),
            final(self)@.wf(),
    {
        proof {
            use_type_invariant(&*self);
        }
        if self.dt > 0 {
            self.dt = self.dt - 1;
        }
        if self.st > 0 {
            self.st = self.st - 1;
        }
        self.st == 1
    }

    /// The value of register `Vx`.
    pub fn register(&self, x: usize) -> (value: u8)
        requires
            x < 16,
        ensures
            value == self@.v[x as int],
    {
        self.v[x]
    }

    /// The index register `I`.
    pub fn index(&self) -> (value: u16)
        ensures
            value == self@.i,
    {
        self.i
    }

    /// The program counter.
    pub fn program_counter(&self) -> (value: u16)
        ensures
            value == self@.pc,
    {
        self.pc
    }

    /// The delay timer.
    pub fn delay_timer(&self) -> (value: u8)
        ensures
            value == self@.delay,
    {
        self.dt
    }

    /// The sound timer.
    pub fn sound_timer(&self) -> (value: u8)
        ensures
            value == self@.sound,
    {
        self.st
    }

    /// The byte of memory at `addr`.
    pub fn memory(&self, addr: usize) -> (value: u8)
        requires
            addr < MEMORY_SIZE,
        ensures
            value == self@.memory[addr as int],
    {
        self.memory[addr]
    }

    /// The number of return addresses on the call stack.
    pub fn stack_depth(&self) -> (depth: usize)
        ensures
            depth == self@.stack.len(),
            depth <= STACK_DEPTH,
    {
        proof {
            use_type_invariant(self);
        }
        self.sp
    }

    /// Whether the pixel at column `x` of row `y` is lit.
    pub fn pixel(&self, x: usize, y: usize) -> (lit: bool)
        requires
            x < WIDTH,
            y < HEIGHT,
        ensures
            lit == self@.pixel(x as int, y as int),
    {
        self.gfx[WIDTH * y + x]
    }

    /// The whole framebuffer, row by row.
    pub fn framebuffer(&self) -> (screen: &[bool; PIXELS])
        ensures
            screen@ == self@.screen,
    {
        &self.gfx
    }

    /// Whether the framebuffer changed since the frame was last presented.
    pub fn draw_flag(&self) -> (dirty: bool)
        ensures
            dirty == self@.dirty,
    {
        self.draw_flag
    }

    /// Tells the interpreter that the host has presented the frame.
    pub fn clear_draw_flag(&mut self)
        ensures
            final(self)@ == old(self)@.presented(),
            final(self)@.wf(),
    {
        proof {
            use_type_invariant(&*self);
        }
        self.draw_flag = false;
    }

    /// Running, waiting for a key, or halted.
    pub fn status(&self) -> (status: Status)
        ensures
            status == self@.status,
    {
        self.status
    }

    /// Whether the interpreter is suspended in a key wait.
    pub fn waiting(&self) -> (waiting: bool)
        ensures
            waiting == (self@.status is WaitingForKey),
    {
        match self.status {
            Status::WaitingForKey => true,
            _ => false,
        }
    }

    /// The compatibility switches that the interpreter was built with.
    pub fn quirks(&self) -> (quirks: Quirks)
        ensures
            quirks == self@.quirks,
    {
        self.quirks
    }

    /// Whether key `key` is down.
    pub fn key(&self, key: usize) -> (pressed: bool)
        requires
            key < 16,
        ensures
            pressed == self@.keys[key as int],
    {
        self.keys[key]
    }

    /// Records that key `key` went down or up.
    pub fn set_key(&mut self, key: usize, pressed: bool)
        requires
            key < 16,
        ensures
            final(self)@ == old(self)@.with_key(key as int, pressed),
            final(self)@.wf(),
    {
        proof {
            use_type_invariant(&*self);
        }
        self.keys[key] = pressed;
    }

    /// Runs `cycles` fetch-decode-execute cycles in a row, as many calls of
    /// `emulate_cycle` would. Once a cycle has left the interpreter halted
    /// or waiting for a key the remaining cycles would change nothing, and
    /// are not run.
    pub fn run_cycles(&mut self, cycles: u32) -> (res: Result<(), Chip8Error>)
        ensures
            exists|randoms: Seq<u8>|
                randoms.len() == cycles && final(self)@ == #[trigger] old(self)@.steps(randoms),
            res == final(self)@.outcome(),
            final(self)@.wf(),
    {
        proof {
            use_type_invariant(&*self);
        }
        let ghost start = self@;
        let ghost mut randoms: Seq<u8> = Seq::empty();
        let mut done: u32 = 0;
        let mut idle: bool = false;
        while done < cycles && !idle
            invariant
                done <= cycles,
                randoms.len() == done,
                start.wf(),
                self@.wf(),
                self@ == start.steps(randoms),
                idle ==> forall|random: u8| #[trigger] self@.step(random) == self@,
            decreases cycles - done + (if idle { 0int } else { 1int }),
        {
            let ghost before = self@;
            let res = self.emulate_cycle();
            proof {
                let drawn = choose|random: u8| self@ == #[trigger] before.step(random);
                assert(randoms.push(drawn).drop_last() =~= randoms);
                randoms = randoms.push(drawn);
                if self@.status is Halted {
                    assert forall|random: u8| #[trigger] self@.step(random) == self@ by {
                        law_halted_is_terminal(self@, random);
                    }
                }
                if self@.status is WaitingForKey {
                    assert forall|random: u8| #[trigger] self@.step(random) == self@ by {
                        law_waiting_is_idle(before, drawn, random);
                    }
                }
            }
            done = done + 1;
            idle = match self.status {
                Status::Running => false,
                _ => true,
            };
        }
        proof {
            let rest = Seq::new((cycles - done) as nat, |k: int| 0u8);
            lemma_idle_or_done(self@, rest);
            law_steps_compose(start, randoms, rest);
            assert((randoms + rest).len() == cycles);
            assert(self@ == start.steps(randoms + rest));
        }
        match self.status {
            Status::Halted(error) => Err(error),
            _ => Ok(()),
        }
    }
}

/// Steps change nothing where there are none to run or where no step
/// changes the machine.
proof fn lemma_idle_or_done(m: Machine, randoms: Seq<u8>)
    requires
        randoms.len() == 0 || forall|random: u8| #[trigger] m.step(random) == m,
    ensures
        m.steps(randoms) == m,
{
    if randoms.len() > 0 {
        law_idle_steps(m, randoms);
    }
}

} // verus!
