//! Laws of the abstract machine: what holds of every state and every
//! instruction word, proved from the definitions in `machine` and `opcode`.

use vstd::prelude::*;
use crate::machine::{
    any_pressed, is_first_pressed, lemma_first_pressed, tick_count, Drive, Machine, Quirks, Status,
};
use crate::opcode::{lemma_field_ranges, op_group, op_kk, op_n, op_nnn, op_x, op_y, Instruction};

verus! {

/// A step keeps every collection at its size and the stack within its
/// depth.
pub proof fn law_step_preserves_wf(m: Machine, random: u8)
    requires
        m.wf(),
    ensures
        m.step(random).wf(),
{
    lemma_field_ranges(m.opcode());
}

/// A halted machine never changes again.
pub proof fn law_halted_is_terminal(m: Machine, random: u8)
    requires
        m.status is Halted,
    ensures
        m.step(random) == m,
{
}

/// A step that halts the machine changes nothing but the status: a faulting
/// instruction has no partial effect, and the program counter stays on it.
pub proof fn law_fault_changes_only_status(m: Machine, random: u8)
    requires
        m.wf(),
        m.step(random).status is Halted,
    ensures
        m.step(random) == (Machine { status: m.step(random).status, ..m }),
{
    lemma_field_ranges(m.opcode());
}

/// The random byte matters to the random-number instruction only.
pub proof fn law_random_byte_is_local(m: Machine, first: u8, second: u8)
    requires
        !m.draws_random(),
    ensures
        m.step(first) == m.step(second),
{
}

/// `6xkk`: afterwards `Vx` holds exactly `kk`.
pub proof fn law_load_immediate(m: Machine, random: u8)
    requires
        m.wf(),
        m.runnable(),
        op_group(m.opcode()) == 0x6,
    ensures
        m.step(random).reg(op_x(m.opcode())) == op_kk(m.opcode()),
        m.step(random).pc == m.pc + 2,
{
    lemma_field_ranges(m.opcode());
}

/// `7xkk`: afterwards `Vx` holds the sum of its old value and `kk`, modulo
/// 256, and no other register has changed.
pub proof fn law_add_immediate(m: Machine, random: u8)
    requires
        m.wf(),
        m.runnable(),
        op_group(m.opcode()) == 0x7,
    ensures
        m.step(random).reg(op_x(m.opcode())) == (m.reg(op_x(m.opcode())) + op_kk(m.opcode()))
            % 256,
        forall|r: u8| r < 16 && r != op_x(m.opcode()) ==> m.step(random).reg(r) == m.reg(r),
{
    lemma_field_ranges(m.opcode());
}

/// `8xy4`: afterwards `Vx` holds the sum of the old `Vx` and `Vy`, modulo
/// 256. Where `x` is not `F`, `VF` is 1 if that sum exceeds 255 and 0 if it
/// does not. (Where `x` is `F` the sum is what the register keeps.)
pub proof fn law_add_registers(m: Machine, random: u8)
    requires
        m.wf(),
        m.runnable(),
        op_group(m.opcode()) == 0x8,
        op_n(m.opcode()) == 0x4,
    ensures
        m.step(random).reg(op_x(m.opcode())) == (m.reg(op_x(m.opcode())) + m.reg(
            op_y(m.opcode()),
        )) % 256,
        op_x(m.opcode()) != 0xF ==> m.step(random).reg(0xF) == (if m.reg(op_x(m.opcode()))
            + m.reg(op_y(m.opcode())) > 255 {
            1u8
        } else {
            0u8
        }),
{
    lemma_field_ranges(m.opcode());
}

/// `8xy5`: afterwards `Vx` holds the old `Vx` minus the old `Vy`, modulo
/// 256. Where `x` is not `F`, `VF` is 1 if the old `Vx` was greater than
/// the old `Vy` and 0 if it was not.
pub proof fn law_subtract_registers(m: Machine, random: u8)
    requires
        m.wf(),
        m.runnable(),
        op_group(m.opcode()) == 0x8,
        op_n(m.opcode()) == 0x5,
    ensures
        m.step(random).reg(op_x(m.opcode())) == (m.reg(op_x(m.opcode())) - m.reg(
            op_y(m.opcode()),
        )) % 256,
        op_x(m.opcode()) != 0xF ==> m.step(random).reg(0xF) == (if m.reg(op_x(m.opcode()))
            > m.reg(op_y(m.opcode())) {
            1u8
        } else {
            0u8
        }),
{
    lemma_field_ranges(m.opcode());
}

/// `8xy7`: afterwards `Vx` holds the old `Vy` minus the old `Vx`, modulo
/// 256. Where `x` is not `F`, `VF` is 1 if the old `Vy` was greater than
/// the old `Vx` and 0 if it was not.
pub proof fn law_subtract_reversed(m: Machine, random: u8)
    requires
        m.wf(),
        m.runnable(),
        op_group(m.opcode()) == 0x8,
        op_n(m.opcode()) == 0x7,
    ensures
        m.step(random).reg(op_x(m.opcode())) == (m.reg(op_y(m.opcode())) - m.reg(
            op_x(m.opcode()),
        )) % 256,
        op_x(m.opcode()) != 0xF ==> m.step(random).reg(0xF) == (if m.reg(op_y(m.opcode()))
            > m.reg(op_x(m.opcode())) {
            1u8
        } else {
            0u8
        }),
{
    lemma_field_ranges(m.opcode());
}

/// What the shifts compute, as arithmetic: a right shift halves and puts
/// the remainder in the flag, a left shift doubles modulo 256 and puts the
/// bit that falls off the top in the flag.
pub proof fn law_shifts_halve_and_double(value: u8)
    ensures
        value >> 1 == value / 2,
        value & 1 == value % 2,
        value << 1 == (value * 2) % 256,
        value >> 7 == value / 128,
{
    assert(value >> 1 == value / 2) by (bit_vector);
    assert(value & 1 == value % 2) by (bit_vector);
    assert(value << 1 == (value * 2) % 256) by (bit_vector);
    assert(value >> 7 == value / 128) by (bit_vector);
}

/// `Fx33`: the three bytes stored are decimal digits, and together they
/// spell the value of `Vx`.
pub proof fn law_decimal_digits(m: Machine, random: u8)
    requires
        m.wf(),
        m.runnable(),
        op_group(m.opcode()) == 0xF,
        op_kk(m.opcode()) == 0x33,
        m.i + 2 < 4096,
    ensures
        m.step(random).memory[m.i as int] < 10,
        m.step(random).memory[m.i + 1] < 10,
        m.step(random).memory[m.i + 2] < 10,
        100 * m.step(random).memory[m.i as int] + 10 * m.step(random).memory[m.i + 1] + m.step(
            random,
        ).memory[m.i + 2] == m.reg(op_x(m.opcode())),
{
    lemma_field_ranges(m.opcode());
}

/// A call followed at once by a return comes back to the instruction after
/// the call, with the stack as it was.
pub proof fn law_call_then_return(m: Machine, addr: u16, first: u8, second: u8)
    requires
        m.wf(),
        m.stack.len() < 16,
    ensures
        m.execute(Instruction::Call { addr }, first).execute(Instruction::Return, second)
            == m.advance(),
{
    let called = m.execute(Instruction::Call { addr }, first);
    assert(called.stack.drop_last() =~= m.stack);
}

/// What a step cannot touch: no instruction writes the key latch or the
/// compatibility switches, only clearing and drawing write the
/// framebuffer, only the two stores write memory, and no instruction marks
/// the frame as presented.
pub proof fn law_step_frame(m: Machine, random: u8)
    requires
        m.wf(),
    ensures
        m.step(random).keys == m.keys,
        m.step(random).quirks == m.quirks,
        m.dirty ==> m.step(random).dirty,
        !(m.runnable() && (m.opcode() == 0x00E0 || op_group(m.opcode()) == 0xD)) ==> m.step(
            random,
        ).screen == m.screen,
        !(m.runnable() && op_group(m.opcode()) == 0xF && (op_kk(m.opcode()) == 0x33 || op_kk(
            m.opcode(),
        ) == 0x55)) ==> m.step(random).memory == m.memory,
{
    lemma_field_ranges(m.opcode());
    assert(op_group(0x00E0) == 0 && op_nnn(0x00E0) == 0x0E0) by (bit_vector);
    let op = m.opcode();
    assert(op >> 12 == 0 && op & 0x0FFF == 0x0E0 ==> op == 0x00E0) by (bit_vector);
}

/// Whether the skip instruction `opcode` finds its condition met in `m`, or
/// `None` where `opcode` is not one of the six skip instructions.
pub open spec fn skip_condition(m: Machine, opcode: u16) -> Option<bool> {
    let x = op_x(opcode);
    let y = op_y(opcode);
    let kk = op_kk(opcode);
    let group = op_group(opcode);
    if group == 0x3 {
        Some(m.reg(x) == kk)
    } else if group == 0x4 {
        Some(m.reg(x) != kk)
    } else if group == 0x5 {
        Some(m.reg(x) == m.reg(y))
    } else if group == 0x9 {
        Some(m.reg(x) != m.reg(y))
    } else if group == 0xE && kk == 0x9E {
        Some(m.key_down(x))
    } else if group == 0xE && kk == 0xA1 {
        Some(!m.key_down(x))
    } else {
        None
    }
}

/// A skip instruction moves the program counter by 4 where its condition
/// holds and by 2 where it does not, counted from the address of the
/// instruction itself, and changes nothing else.
pub proof fn law_skip(m: Machine, random: u8)
    requires
        m.wf(),
        m.runnable(),
        skip_condition(m, m.opcode()) is Some,
    ensures
        skip_condition(m, m.opcode()) == Some(true) ==> m.step(random).pc == m.pc + 4,
        skip_condition(m, m.opcode()) == Some(false) ==> m.step(random).pc == m.pc + 2,
        m.step(random) == (Machine {
            pc: m.step(random).pc,
            status: Status::Running,
            ..m
        }),
{
    lemma_field_ranges(m.opcode());
}

/// `00E0`: afterwards every pixel is dark and the frame is marked as
/// changed.
pub proof fn law_clear_screen(m: Machine, random: u8)
    requires
        m.wf(),
        m.runnable(),
        m.opcode() == 0x00E0,
    ensures
        forall|p: int| 0 <= p < 2048 ==> !m.step(random).screen[p],
        m.step(random).dirty,
        m.step(random).pc == m.pc + 2,
{
    assert(op_group(0x00E0) == 0 && op_nnn(0x00E0) == 0x0E0) by (bit_vector);
}

/// `Dxyn` on a screen with every pixel dark finds no collision: unless the
/// sprite reaches past the end of memory, afterwards exactly the pixels
/// under its set bits are lit, the frame is marked as changed, and `VF` is 0
/// (or, under the quirk that keeps the flag, what it was).
pub proof fn law_draw_on_dark_screen(m: Machine, random: u8)
    requires
        m.wf(),
        m.runnable(),
        op_group(m.opcode()) == 0xD,
        forall|p: int| 0 <= p < 2048 ==> !m.screen[p],
    ensures
        !m.collides(op_x(m.opcode()), op_y(m.opcode()), op_n(m.opcode())),
        !(m.step(random).status is Halted) ==> {
            &&& m.step(random).dirty
            &&& m.step(random).reg(0xF) == (if m.quirks.draw_keeps_flag {
                m.reg(0xF)
            } else {
                0u8
            })
            &&& forall|p: int|
                0 <= p < 2048 ==> m.step(random).screen[p] == m.sprite_at(
                    op_x(m.opcode()),
                    op_y(m.opcode()),
                    op_n(m.opcode()),
                    p,
                )
        },
{
    lemma_field_ranges(m.opcode());
}

/// `00E0` followed by `Dxyn`: the draw that comes right after a clear never
/// reports a collision.
pub proof fn law_first_draw_after_clear(m: Machine, first: u8, second: u8)
    requires
        m.wf(),
        m.runnable(),
        m.opcode() == 0x00E0,
        m.step(first).fetchable(),
        op_group(m.step(first).opcode()) == 0xD,
        !m.quirks.draw_keeps_flag,
    ensures
        !(m.step(first).step(second).status is Halted) ==> m.step(first).step(second).reg(0xF)
            == 0,
{
    law_clear_screen(m, first);
    law_step_preserves_wf(m, first);
    assert(op_group(0x00E0) == 0 && op_nnn(0x00E0) == 0x0E0) by (bit_vector);
    law_draw_on_dark_screen(m.step(first), second);
}

/// Drawing is its own inverse: the same `Dxyn` executed twice in a row,
/// with neither `x` nor `y` naming the flag register, leaves the screen as
/// it was.
pub proof fn law_draw_twice_restores(m: Machine, x: u8, y: u8, rows: u8, first: u8, second: u8)
    requires
        m.wf(),
        x < 0xF,
        y < 0xF,
        rows < 16,
    ensures
        m.execute(Instruction::Draw { x, y, rows }, first).execute(
            Instruction::Draw { x, y, rows },
            second,
        ).screen == m.screen,
{
    let ins = Instruction::Draw { x, y, rows };
    let once = m.execute(ins, first);
    let twice = once.execute(ins, second);
    if !(once.status is Halted) {
        assert forall|p: int| 0 <= p < 2048 implies once.sprite_at(x, y, rows, p) == m.sprite_at(
            x,
            y,
            rows,
            p,
        ) by {}
        assert(twice.screen =~= m.screen);
    }
}

/// A program image of at most 3584 bytes appears in memory unchanged from
/// address 512 on, above the font and below zeros, in a machine that is
/// ready to run it.
pub proof fn law_loaded_program(quirks: Quirks, rom: Seq<u8>)
    requires
        rom.len() <= 3584,
    ensures
        Machine::loaded(quirks, rom).wf(),
        Machine::loaded(quirks, rom).memory.subrange(512, 512 + rom.len() as int) == rom,
        forall|a: int| 512 + rom.len() <= a < 4096 ==> Machine::loaded(quirks, rom).memory[a] == 0,
        Machine::loaded(quirks, rom).pc == 512,
        Machine::loaded(quirks, rom).status == Status::Running,
{
    assert(Machine::loaded(quirks, rom).memory.subrange(512, 512 + rom.len() as int) =~= rom);
}

/// After `count` ticks a timer that stood at `t` stands at `t - count`, or at
/// 0 once that many ticks have passed: it never goes below zero. Ticks
/// change nothing but the timers.
pub proof fn law_ticks_count_down(m: Machine, count: nat)
    ensures
        m.ticks(count).delay == (if m.delay >= count {
            m.delay - count
        } else {
            0
        }),
        m.ticks(count).sound == (if m.sound >= count {
            m.sound - count
        } else {
            0
        }),
        m.ticks(count) == (Machine {
            delay: m.ticks(count).delay,
            sound: m.ticks(count).sound,
            ..m
        }),
    decreases count,
{
    if count > 0 {
        law_ticks_count_down(m, (count - 1) as nat);
    }
}

/// Executing instructions does not make time pass: a step leaves the delay
/// timer alone unless it executes `Fx15`, and the sound timer unless it
/// executes `Fx18`.
pub proof fn law_step_keeps_timers(m: Machine, random: u8)
    requires
        m.wf(),
    ensures
        !m.sets_delay() ==> m.step(random).delay == m.delay,
        !m.sets_sound() ==> m.step(random).sound == m.sound,
{
    lemma_field_ranges(m.opcode());
}

/// However the host drives the machine, it stays well formed.
pub proof fn law_drive_preserves_wf(m: Machine, actions: Seq<Drive>)
    requires
        m.wf(),
    ensures
        m.drive(actions).wf(),
    decreases actions.len(),
{
    if actions.len() > 0 {
        law_drive_preserves_wf(m, actions.drop_last());
        if let Drive::Cycle { random } = actions.last() {
            law_step_preserves_wf(m.drive(actions.drop_last()), random);
        }
    }
}

/// The delay timer counts ticks and nothing else: however many cycles run
/// between the ticks, as long as none of them sets the timer, it stands at
/// its old value less the number of ticks, or at 0 once that many ticks have
/// passed.
pub proof fn law_delay_counts_ticks_only(m: Machine, actions: Seq<Drive>)
    requires
        m.wf(),
        forall|k: int|
            0 <= k < actions.len() && actions[k] is Cycle ==> !(#[trigger] m.drive(
                actions.take(k),
            )).sets_delay(),
    ensures
        m.drive(actions).delay == (if m.delay >= tick_count(actions) {
            m.delay - tick_count(actions)
        } else {
            0
        }),
    decreases actions.len(),
{
    if actions.len() > 0 {
        let earlier = actions.drop_last();
        assert(earlier =~= actions.take(actions.len() - 1));
        assert forall|k: int| 0 <= k < earlier.len() && earlier[k] is Cycle implies !(#[trigger] m.drive(
            earlier.take(k),
        )).sets_delay() by {
            assert(earlier.take(k) =~= actions.take(k));
        }
        law_delay_counts_ticks_only(m, earlier);
        law_drive_preserves_wf(m, earlier);
        if let Drive::Cycle { random } = actions.last() {
            law_step_keeps_timers(m.drive(earlier), random);
        }
    }
}

/// The sound timer counts ticks and nothing else, as the delay timer does.
pub proof fn law_sound_counts_ticks_only(m: Machine, actions: Seq<Drive>)
    requires
        m.wf(),
        forall|k: int|
            0 <= k < actions.len() && actions[k] is Cycle ==> !(#[trigger] m.drive(
                actions.take(k),
            )).sets_sound(),
    ensures
        m.drive(actions).sound == (if m.sound >= tick_count(actions) {
            m.sound - tick_count(actions)
        } else {
            0
        }),
    decreases actions.len(),
{
    if actions.len() > 0 {
        let earlier = actions.drop_last();
        assert(earlier =~= actions.take(actions.len() - 1));
        assert forall|k: int| 0 <= k < earlier.len() && earlier[k] is Cycle implies !(#[trigger] m.drive(
            earlier.take(k),
        )).sets_sound() by {
            assert(earlier.take(k) =~= actions.take(k));
        }
        law_sound_counts_ticks_only(m, earlier);
        law_drive_preserves_wf(m, earlier);
        if let Drive::Cycle { random } = actions.last() {
            law_step_keeps_timers(m.drive(earlier), random);
        }
    }
}

/// `Fx0A` with no key down: the step changes nothing but the status, which
/// becomes `WaitingForKey`, and every further step with no key down changes
/// nothing at all. The program counter stays on the instruction.
pub proof fn law_key_wait_suspends(m: Machine, first: u8, second: u8)
    requires
        m.wf(),
        m.runnable(),
        op_group(m.opcode()) == 0xF,
        op_kk(m.opcode()) == 0x0A,
        !any_pressed(m.keys),
    ensures
        m.step(first) == (Machine { status: Status::WaitingForKey, ..m }),
        m.step(first).step(second) == m.step(first),
{
    lemma_field_ranges(m.opcode());
}

/// `Fx0A` with a key down, whether the machine was running or waiting:
/// `Vx` receives the lowest-numbered key that is down, the machine runs, and
/// the program counter moves past the instruction.
pub proof fn law_key_wait_resumes(m: Machine, random: u8, key: int)
    requires
        m.wf(),
        m.runnable(),
        op_group(m.opcode()) == 0xF,
        op_kk(m.opcode()) == 0x0A,
        is_first_pressed(m.keys, key),
    ensures
        m.step(random).reg(op_x(m.opcode())) == key,
        m.step(random).status == Status::Running,
        m.step(random).pc == m.pc + 2,
{
    lemma_field_ranges(m.opcode());
    lemma_first_pressed(m.keys, key);
}

/// With exactly one key down, that key is the lowest-numbered one down.
pub proof fn law_single_key(keys: Seq<bool>, key: int)
    requires
        0 <= key < keys.len(),
        keys[key],
        forall|j: int| 0 <= j < keys.len() && j != key ==> !keys[j],
    ensures
        is_first_pressed(keys, key),
{
}

/// A machine that a step has left waiting for a key stays exactly as it is
/// under every further step, until the host changes the keys.
pub proof fn law_waiting_is_idle(m: Machine, random: u8, next: u8)
    requires
        m.wf(),
        m.step(random).status is WaitingForKey,
    ensures
        m.step(random).step(next) == m.step(random),
{
    lemma_field_ranges(m.opcode());
}

/// Steps on a machine that no step changes change nothing.
pub proof fn law_idle_steps(m: Machine, randoms: Seq<u8>)
    requires
        forall|random: u8| #[trigger] m.step(random) == m,
    ensures
        m.steps(randoms) == m,
    decreases randoms.len(),
{
    if randoms.len() > 0 {
        law_idle_steps(m, randoms.drop_last());
    }
}

/// Running the steps of `first` and then those of `second` is running the
/// steps of the two in a row.
pub proof fn law_steps_compose(m: Machine, first: Seq<u8>, second: Seq<u8>)
    ensures
        m.steps(first + second) == m.steps(first).steps(second),
    decreases second.len(),
{
    if second.len() == 0 {
        assert(first + second =~= first);
    } else {
        law_steps_compose(m, first, second.drop_last());
        assert((first + second).drop_last() =~= first + second.drop_last());
        assert((first + second).last() == second.last());
    }
}

/// Steps keep every collection at its size and the stack within its depth.
pub proof fn law_steps_preserve_wf(m: Machine, randoms: Seq<u8>)
    requires
        m.wf(),
    ensures
        m.steps(randoms).wf(),
    decreases randoms.len(),
{
    if randoms.len() > 0 {
        law_steps_preserve_wf(m, randoms.drop_last());
        law_step_preserves_wf(m.steps(randoms.drop_last()), randoms.last());
    }
}

} // verus!
