//! Properties of the machine that follow from its definition, stated over
//! the model and proved once and for all.

use vstd::prelude::*;
use crate::instruction::{decode_spec, Instruction};
use crate::machine::{
    blank_screen, interval_elapsed, is_lowest_pressed, ticked, Machine, StepError,
    DISPLAY_HEIGHT, DISPLAY_WIDTH, FLAG_REGISTER, PROGRAM_START, RAM_SIZE,
};

verus! {

/// The machine after the steps whose outside inputs, clock reading and
/// random byte, are `inputs`, in order; a step that fails leaves the machine
/// as `Machine::step` says.
pub open spec fn run(m: Machine, inputs: Seq<(int, u8)>) -> Machine
    decreases inputs.len(),
{
    if inputs.len() == 0 {
        m
    } else {
        run(m, inputs.drop_last()).step(inputs.last().0, inputs.last().1).0
    }
}

/// The machine after `count` timer intervals have passed.
pub open spec fn after_ticks(m: Machine, count: nat) -> Machine
    decreases count,
{
    if count == 0 {
        m
    } else {
        after_ticks(m, (count - 1) as nat).tick_timers()
    }
}

/// A step keeps the machine well formed.
pub proof fn lemma_step_wf(m: Machine, now: int, random: u8)
    requires
        m.wf(),
    ensures
        m.step(now, random).0.wf(),
{
}

/// Every instruction word decodes to an instruction whose operands are in
/// range.
pub proof fn lemma_decode_wf(opcode: u16)
    ensures
        decode_spec(opcode).wf(),
{
}

/// A step that fails changes nothing but the timers, and what it does to
/// them is what reading the clock alone would do.
pub proof fn lemma_failed_step(m: Machine, now: int, random: u8)
    requires
        m.step(now, random).1 is Err,
    ensures
        m.step(now, random).0 == m.update_timers(now),
        m.step(now, random).0.pc == m.pc,
{
}

/// A word that stands for no instruction is no error and does nothing: the
/// program counter moves on to the next word and nothing else changes but
/// the timers.
pub proof fn lemma_unknown_word(m: Machine, opcode: u16, now: int, random: u8)
    requires
        m.wf(),
        m.fetch() == Some(opcode),
        decode_spec(opcode) is Unknown,
    ensures
        m.step(now, random).1 == Ok::<bool, StepError>(false),
        m.step(now, random).0 == (Machine { pc: (m.pc + 2) as usize, ..m.update_timers(now) }),
{
}

/// After a program is loaded, its bytes stand in memory from
/// `PROGRAM_START` on, in order; the rest of memory and everything else is
/// as before.
pub proof fn lemma_load_verbatim(m: Machine, data: Seq<u8>)
    requires
        m.wf(),
        data.len() <= RAM_SIZE - PROGRAM_START,
    ensures
        m.load(data).wf(),
        forall|k: int| 0 <= k < data.len() ==> #[trigger] m.load(data).memory[PROGRAM_START + k] == data[k],
        m.load(data).memory.subrange(PROGRAM_START as int, PROGRAM_START + data.len()) == data,
        forall|a: int|
            0 <= a < RAM_SIZE && !(PROGRAM_START <= a < PROGRAM_START + data.len())
                ==> #[trigger] m.load(data).memory[a] == m.memory[a],
        m.load(data) == (Machine { memory: m.load(data).memory, ..m }),
{
}

/// The clear instruction turns every pixel off and reports the display as
/// changed, whatever the display showed.
pub proof fn lemma_clear_screen(m: Machine, now: int, random: u8)
    requires
        m.wf(),
        m.fetch() == Some(0x00E0u16),
    ensures
        m.step(now, random).1 == Ok::<bool, StepError>(true),
        m.step(now, random).0.pixels == blank_screen(),
        forall|x: int, y: int|
            0 <= x < DISPLAY_WIDTH && 0 <= y < DISPLAY_HEIGHT ==> !m.step(
                now,
                random,
            ).0.pixels[y][x],
{
}

/// A jump sets the program counter to exactly the address in the
/// instruction word.
pub proof fn lemma_jump(m: Machine, opcode: u16, now: int, random: u8)
    requires
        m.wf(),
        m.fetch() == Some(opcode),
        opcode / 0x1000 == 1,
    ensures
        m.step(now, random).1 == Ok::<bool, StepError>(false),
        m.step(now, random).0.pc == opcode % 0x1000,
        m.step(now, random).0.stack == m.stack,
{
}

/// A call pushes the address of the instruction after it and sets the
/// program counter to the address in the instruction word.
pub proof fn lemma_call(m: Machine, opcode: u16, now: int, random: u8)
    requires
        m.wf(),
        m.fetch() == Some(opcode),
        opcode / 0x1000 == 2,
    ensures
        m.step(now, random).1 == Ok::<bool, StepError>(false),
        m.step(now, random).0.pc == opcode % 0x1000,
        m.step(now, random).0.stack == m.stack.push((m.pc + 2) as usize),
        m.step(now, random).0.stack.len() == m.stack.len() + 1,
{
}

/// A return takes the innermost return address off the stack, which gets
/// shorter by exactly one, and continues there. With an empty stack it is an
/// error.
pub proof fn lemma_return(m: Machine, now: int, random: u8)
    requires
        m.wf(),
        m.fetch() == Some(0x00EEu16),
    ensures
        m.stack.len() > 0 ==> {
            &&& m.step(now, random).1 == Ok::<bool, StepError>(false)
            &&& m.step(now, random).0.pc == m.stack.last()
            &&& m.step(now, random).0.stack == m.stack.drop_last()
            &&& m.step(now, random).0.stack.len() == m.stack.len() - 1
        },
        m.stack.len() == 0 ==> m.step(now, random).1 == Err::<bool, StepError>(
            StepError::StackUnderflow { pc: m.pc },
        ),
{
}

/// A call followed by a return at the call's target continues after the
/// call with the stack as it was.
pub proof fn lemma_call_then_return(
    m: Machine,
    opcode: u16,
    first: (int, u8),
    second: (int, u8),
)
    requires
        m.wf(),
        m.fetch() == Some(opcode),
        opcode / 0x1000 == 2,
        m.step(first.0, first.1).0.fetch() == Some(0x00EEu16),
    ensures
        run(m, seq![first, second]).pc == m.pc + 2,
        run(m, seq![first, second]).stack == m.stack,
{
    reveal_with_fuel(run, 3);
    let called = m.step(first.0, first.1).0;
    lemma_call(m, opcode, first.0, first.1);
    lemma_step_wf(m, first.0, first.1);
    lemma_return(called, second.0, second.1);
}

/// Adding an immediate wraps modulo 256 and changes no other register,
/// the flag register included.
pub proof fn lemma_add_immediate(m: Machine, opcode: u16, now: int, random: u8)
    requires
        m.wf(),
        m.fetch() == Some(opcode),
        opcode / 0x1000 == 7,
    ensures
        m.step(now, random).1 == Ok::<bool, StepError>(false),
        m.step(now, random).0.registers[(opcode / 0x100 % 0x10) as int] == (m.registers[(
        opcode / 0x100 % 0x10) as int] + opcode % 0x100) % 256,
        forall|r: int|
            0 <= r < 16 && r != opcode / 0x100 % 0x10 ==> m.step(now, random).0.registers[r]
                == m.registers[r],
{
}

/// Register addition wraps modulo 256 and leaves the carry in the flag
/// register: 1 if the sum exceeded 255, else 0.
pub proof fn lemma_add_registers(m: Machine, x: u8, y: u8, random: u8)
    requires
        m.wf(),
        x < 16,
        y < 16,
    ensures
        m.perform(Instruction::Add { x, y }, random).register(FLAG_REGISTER) == if m.register(x)
            + m.register(y) > 255 {
            1u8
        } else {
            0u8
        },
        x != FLAG_REGISTER ==> m.perform(Instruction::Add { x, y }, random).register(x) == (
        m.register(x) + m.register(y)) % 256,
        forall|r: u8|
            r < 16 && r != x && r != FLAG_REGISTER ==> m.perform(
                Instruction::Add { x, y },
                random,
            ).register(r) == m.register(r),
{
}

/// Register subtraction wraps modulo 256; the flag register gets 1 if no
/// borrow was needed (the minuend was at least the subtrahend), else 0.
pub proof fn lemma_subtract_registers(m: Machine, x: u8, y: u8, random: u8)
    requires
        m.wf(),
        x < 16,
        y < 16,
    ensures
        m.perform(Instruction::Subtract { x, y }, random).register(FLAG_REGISTER) == if m.register(
            x,
        ) >= m.register(y) {
            1u8
        } else {
            0u8
        },
        x != FLAG_REGISTER ==> m.perform(Instruction::Subtract { x, y }, random).register(x) == (
        m.register(x) - m.register(y)) % 256,
        m.perform(Instruction::SubtractReversed { x, y }, random).register(FLAG_REGISTER)
            == if m.register(y) >= m.register(x) {
            1u8
        } else {
            0u8
        },
        x != FLAG_REGISTER ==> m.perform(Instruction::SubtractReversed { x, y }, random).register(
            x,
        ) == (m.register(y) - m.register(x)) % 256,
{
}

/// The shifts read register `y`, not register `x`: register `x` gets
/// `VY` halved or doubled (modulo 256), and the flag register the bit that
/// was shifted out.
pub proof fn lemma_shifts(m: Machine, x: u8, y: u8, random: u8)
    requires
        m.wf(),
        x < 16,
        y < 16,
    ensures
        m.perform(Instruction::ShiftRight { x, y }, random).register(FLAG_REGISTER) == m.register(
            y,
        ) % 2,
        x != FLAG_REGISTER ==> m.perform(Instruction::ShiftRight { x, y }, random).register(x)
            == m.register(y) / 2,
        m.perform(Instruction::ShiftLeft { x, y }, random).register(FLAG_REGISTER) == m.register(
            y,
        ) / 128,
        x != FLAG_REGISTER ==> m.perform(Instruction::ShiftLeft { x, y }, random).register(x) == (
        m.register(y) * 2) % 256,
{
}

/// The three bytes that the decimal conversion stores are decimal digits
/// and spell the register's value.
pub proof fn lemma_store_decimal(m: Machine, x: u8, random: u8)
    requires
        m.wf(),
        x < 16,
        m.index + 2 < RAM_SIZE,
    ensures
        ({
            let after = m.perform(Instruction::StoreDecimal { x }, random);
            &&& after.memory[m.index as int] < 10
            &&& after.memory[m.index + 1] < 10
            &&& after.memory[m.index + 2] < 10
            &&& after.memory[m.index as int] * 100 + after.memory[m.index + 1] * 10
                + after.memory[m.index + 2] == m.register(x)
            &&& forall|a: int|
                0 <= a < RAM_SIZE && !(m.index <= a <= m.index + 2) ==> after.memory[a]
                    == m.memory[a]
        }),
{
}

/// Storing `V0..=VX` and loading them back from the same place gives every
/// register the value it had, whatever the registers held in between.
pub proof fn lemma_store_load_round_trip(m: Machine, between: Machine, x: u8, random: u8)
    requires
        m.wf(),
        between.wf(),
        x < 16,
        m.index + x < RAM_SIZE,
        between.memory == m.perform(Instruction::StoreRegisters { x }, random).memory,
        between.index == m.index,
    ensures
        forall|r: int|
            0 <= r <= x ==> between.perform(Instruction::LoadRegisters { x }, random).registers[r]
                == m.registers[r],
        m.perform(Instruction::StoreRegisters { x }, random).perform(
            Instruction::LoadRegisters { x },
            random,
        ).registers == m.registers,
        m.perform(Instruction::StoreRegisters { x }, random).registers == m.registers,
{
}

/// Each timer counts down by exactly one per interval until it is 0, and
/// stays there.
pub proof fn lemma_timers_count_down(m: Machine, count: nat)
    ensures
        after_ticks(m, count).delay_timer == if m.delay_timer >= count {
            m.delay_timer - count
        } else {
            0
        },
        after_ticks(m, count).sound_timer == if m.sound_timer >= count {
            m.sound_timer - count
        } else {
            0
        },
        after_ticks(m, count) == (Machine {
            delay_timer: after_ticks(m, count).delay_timer,
            sound_timer: after_ticks(m, count).sound_timer,
            ..m
        }),
    decreases count,
{
    if count > 0 {
        lemma_timers_count_down(m, (count - 1) as nat);
    }
}

/// The timers are due exactly when more than a sixtieth of a second has
/// passed since they last counted down: from 16,666,667 nanoseconds on.
pub proof fn lemma_interval(m: Machine, now: int)
    ensures
        m.timers_due(now) <==> now - m.last_tick >= 16_666_667,
        interval_elapsed(now - m.last_tick) <==> (now - m.last_tick) * 60 > 1_000_000_000,
{
}

/// One reading of the clock lets the timers count down at most once, and
/// after they have counted down no reading within the next sixtieth of a
/// second lets them count down again.
pub proof fn lemma_one_tick_per_interval(m: Machine, now: int, later: int)
    requires
        m.timers_due(now),
        later - now <= 16_666_666,
    ensures
        m.update_timers(now).delay_timer == ticked(m.delay_timer),
        m.update_timers(now).sound_timer == ticked(m.sound_timer),
        m.update_timers(now).update_timers(later) == m.update_timers(now),
{
}

/// The machine after `count` readings of the clock that are `period`
/// nanoseconds apart, the first one `period` after the timers last counted
/// down.
pub open spec fn after_readings(m: Machine, period: int, count: nat) -> Machine
    decreases count,
{
    if count == 0 {
        m
    } else {
        after_readings(m, period, (count - 1) as nat).update_timers(m.last_tick + count * period)
    }
}

/// With clock readings that are more than a sixtieth of a second apart, a
/// timer that stands at `N` stands at `N - count` after `count` readings,
/// and at 0 from the `N`th reading on: it goes down by exactly one per
/// reading and never below 0.
pub proof fn lemma_timers_follow_clock(m: Machine, period: int, count: nat)
    requires
        interval_elapsed(period),
    ensures
        after_readings(m, period, count) == (Machine {
            last_tick: m.last_tick + count * period,
            ..after_ticks(m, count)
        }),
        after_readings(m, period, count).delay_timer == if m.delay_timer >= count {
            m.delay_timer - count
        } else {
            0
        },
        after_readings(m, period, count).sound_timer == if m.sound_timer >= count {
            m.sound_timer - count
        } else {
            0
        },
    decreases count,
{
    lemma_timers_count_down(m, count);
    if count > 0 {
        lemma_timers_follow_clock(m, period, (count - 1) as nat);
        lemma_timers_count_down(m, (count - 1) as nat);
        assert(count * period - (count - 1) * period == period) by (nonlinear_arith);
    } else {
        assert(count * period == 0) by (nonlinear_arith)
            requires
                count == 0,
        ;
    }
}

/// While no key is held down, a wait for a key does not let the program
/// counter move on: a step does nothing but update the timers.
pub proof fn lemma_wait_without_key(m: Machine, opcode: u16, now: int, random: u8)
    requires
        m.wf(),
        m.fetch() == Some(opcode),
        opcode / 0x1000 == 0xF,
        opcode % 0x100 == 0x0A,
        forall|k: int| 0 <= k < 16 ==> !m.keys[k],
    ensures
        m.step(now, random).1 == Ok::<bool, StepError>(false),
        m.step(now, random).0 == m.update_timers(now),
        m.step(now, random).0.pc == m.pc,
        m.step(now, random).0.fetch() == Some(opcode),
{
}

/// While no key is held down, no number of steps gets past a wait for a
/// key.
pub proof fn lemma_wait_repeats(m: Machine, opcode: u16, inputs: Seq<(int, u8)>)
    requires
        m.wf(),
        m.fetch() == Some(opcode),
        opcode / 0x1000 == 0xF,
        opcode % 0x100 == 0x0A,
        forall|k: int| 0 <= k < 16 ==> !m.keys[k],
    ensures
        run(m, inputs).wf(),
        run(m, inputs).pc == m.pc,
        run(m, inputs).fetch() == Some(opcode),
        run(m, inputs).keys == m.keys,
        run(m, inputs).registers == m.registers,
    decreases inputs.len(),
{
    if inputs.len() > 0 {
        lemma_wait_repeats(m, opcode, inputs.drop_last());
        lemma_wait_without_key(run(m, inputs.drop_last()), opcode, inputs.last().0, inputs.last().1);
    }
}

/// Once a key is held down, a wait for a key stores the index of the
/// lowest-indexed key that is held and lets the program counter move on.
pub proof fn lemma_wait_with_key(m: Machine, opcode: u16, now: int, random: u8)
    requires
        m.wf(),
        m.fetch() == Some(opcode),
        opcode / 0x1000 == 0xF,
        opcode % 0x100 == 0x0A,
        exists|k: int| 0 <= k < 16 && m.keys[k],
    ensures
        m.step(now, random).1 == Ok::<bool, StepError>(false),
        m.step(now, random).0.pc == m.pc + 2,
        is_lowest_pressed(
            m.keys,
            m.step(now, random).0.registers[(opcode / 0x100 % 0x10) as int] as int,
        ),
{
    let some = choose|k: int| 0 <= k < 16 && m.keys[k];
    lemma_lowest_exists(m.keys, some);
}

/// Where some key is held down, one of the held keys is the lowest.
proof fn lemma_lowest_exists(keys: Seq<bool>, some: int)
    requires
        0 <= some < keys.len(),
        keys[some],
    ensures
        exists|key: int| is_lowest_pressed(keys, key),
    decreases some,
{
    if exists|lower: int| 0 <= lower < some && keys[lower] {
        let lower = choose|lower: int| 0 <= lower < some && keys[lower];
        lemma_lowest_exists(keys, lower);
    } else {
        assert(is_lowest_pressed(keys, some));
    }
}

/// Drawing a sprite twice at the same place restores the display. If the
/// display was dark, the second draw reports a collision exactly if the
/// sprite has a bit that is on.
pub proof fn lemma_draw_twice(m: Machine, vx: u8, vy: u8, rows: u8)
    requires
        m.wf(),
        rows < 16,
    ensures
        (Machine { pixels: m.drawn_pixels(vx, vy, rows), ..m }).drawn_pixels(vx, vy, rows)
            == m.pixels,
        m.pixels == blank_screen() ==> ((Machine {
            pixels: m.drawn_pixels(vx, vy, rows),
            ..m
        }).sprite_collides(vx, vy, rows) <==> exists|x: int, y: int|
            0 <= x < DISPLAY_WIDTH && 0 <= y < DISPLAY_HEIGHT && #[trigger] m.sprite_covers(
                vx,
                vy,
                rows,
                x,
                y,
            )),
{
    let once = Machine { pixels: m.drawn_pixels(vx, vy, rows), ..m };
    assert(once.drawn_pixels(vx, vy, rows) =~~= m.pixels);
    if m.pixels == blank_screen() {
        if exists|x: int, y: int|
            0 <= x < DISPLAY_WIDTH && 0 <= y < DISPLAY_HEIGHT && #[trigger] m.sprite_covers(
                vx,
                vy,
                rows,
                x,
                y,
            ) {
            let (x, y) = choose|x: int, y: int|
                0 <= x < DISPLAY_WIDTH && 0 <= y < DISPLAY_HEIGHT && #[trigger] m.sprite_covers(
                    vx,
                    vy,
                    rows,
                    x,
                    y,
                );
            assert(once.pixels[y][x]);
        }
    }
}

/// Two draw instructions in a row with the same operands, whose
/// coordinates do not come from the flag register, restore the display; on
/// a dark display the second one sets the flag register to 1 exactly if
/// the sprite has a bit that is on.
pub proof fn lemma_draw_instruction_twice(m: Machine, x: u8, y: u8, rows: u8, random: u8)
    requires
        m.wf(),
        x < 16,
        y < 16,
        rows < 16,
        x != FLAG_REGISTER,
        y != FLAG_REGISTER,
    ensures
        ({
            let draw = Instruction::Draw { x, y, rows };
            let twice = m.perform(draw, random).perform(draw, random);
            &&& twice.pixels == m.pixels
            &&& m.pixels == blank_screen() ==> (twice.register(FLAG_REGISTER) == 1
                <==> exists|px: int, py: int|
                0 <= px < DISPLAY_WIDTH && 0 <= py < DISPLAY_HEIGHT && #[trigger] m.sprite_covers(
                    m.register(x),
                    m.register(y),
                    rows,
                    px,
                    py,
                ))
            &&& m.pixels == blank_screen() ==> twice.register(FLAG_REGISTER) <= 1
        }),
{
    let once = m.perform(Instruction::Draw { x, y, rows }, random);
    let shown = Machine { pixels: m.drawn_pixels(m.register(x), m.register(y), rows), ..m };
    lemma_draw_twice(m, m.register(x), m.register(y), rows);
    assert(once.drawn_pixels(m.register(x), m.register(y), rows) =~~= shown.drawn_pixels(
        m.register(x),
        m.register(y),
        rows,
    ));
}

} // verus!
