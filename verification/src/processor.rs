//! The interpreter: the machine's state and the step function that advances
//! it by one instruction.

use vstd::prelude::*;
use rand::rngs::ThreadRng;
use std::time::{Duration, Instant};
use crate::font::{FONT, FONT_SIZE};
use crate::host::random_byte;
use crate::instruction::{decode, decode_spec, Instruction};
use crate::display::{blank_framebuffer, grid, lemma_rows_shaped, rows_shaped};
use crate::machine::{
    blank_screen, interval_elapsed, is_lowest_pressed, lowest_pressed, Machine, StepError,
    DISPLAY_HEIGHT, DISPLAY_WIDTH, FLAG_REGISTER, KEY_COUNT, PROGRAM_START, RAM_SIZE,
    REGISTER_COUNT,
};
use crate::sprite::{collided_before, covered_before, lemma_draw_bit, lemma_draw_rows};

verus! {

/// One machine: memory, registers, program counter, call stack, timers,
/// display and keypad, together with the random source that the random
/// instruction draws from and the clock against which the timers run. The
/// clock starts at 0 when the machine is made and counts nanoseconds.
pub struct Processor {
    ram: Vec<u8>,
    framebuffer: Vec<Vec<bool>>,
    pc: usize,
    i: u16,
    stack: Vec<usize>,
    delay_timer: u8,
    sound_timer: u8,
    registers: Vec<u8>,
    rng: ThreadRng,
    keys: [bool; 16],
    clock: Instant,
    last_timer_update: u128,
}

impl View for Processor {
    type V = Machine;

    closed spec fn view(&self) -> Machine {
        Machine {
            memory: self.ram@,
            registers: self.registers@,
            index: self.i,
            pc: self.pc,
            stack: self.stack@,
            delay_timer: self.delay_timer,
            sound_timer: self.sound_timer,
            pixels: grid(&self.framebuffer),
            keys: self.keys@,
            last_tick: self.last_timer_update as int,
        }
    }
}

/// Whether `instruction` reports the display as changed.
fn instruction_redraws(instruction: Instruction) -> (redraws: bool)
    ensures
        redraws == Machine::redraws(instruction),
{
    match instruction {
        Instruction::ClearScreen | Instruction::Draw { .. } => true,
        _ => false,
    }
}

/// Whether `elapsed_nanos` nanoseconds are more than the timer interval, a
/// sixtieth of a second.
pub fn timer_interval_elapsed(elapsed_nanos: u128) -> (due: bool)
    ensures
        due == interval_elapsed(elapsed_nanos as int),
{
    elapsed_nanos > 16_666_666
}

impl Processor {
    /// Memory, registers, keypad and display have their fixed sizes.
    pub open spec fn wf(&self) -> bool {
        self@.wf()
    }

    /// A machine in its startup state.
    pub fn new() -> (processor: Processor)
        ensures
            processor.wf(),
            processor@ == Machine::initial(),
    {
        let mut ram: Vec<u8> = Vec::new();
        let mut a: usize = 0;
        while a < RAM_SIZE
            invariant
                a <= RAM_SIZE,
                ram@.len() == a,
                forall|k: int| 0 <= k < a ==> #[trigger] ram@[k] == Machine::initial().memory[k],
            decreases RAM_SIZE - a,
        {
            let byte: u8 = if a < FONT_SIZE {
                FONT[a]
            } else {
                0
            };
            ram.push(byte);
            a += 1;
        }
        let mut registers: Vec<u8> = Vec::new();
        let mut r: usize = 0;
        while r < REGISTER_COUNT
            invariant
                r <= REGISTER_COUNT,
                registers@.len() == r,
                forall|k: int| 0 <= k < r ==> #[trigger] registers@[k] == 0,
            decreases REGISTER_COUNT - r,
        {
            registers.push(0);
            r += 1;
        }
        let processor = Processor {
            ram,
            framebuffer: blank_framebuffer(),
            pc: PROGRAM_START,
            i: 0,
            stack: Vec::new(),
            delay_timer: 0,
            sound_timer: 0,
            registers,
            rng: rand::thread_rng(),
            keys: [false; 16],
            clock: Instant::now(),
            last_timer_update: 0,
        };
        processor
    }

    /// Copies `data` into memory at `PROGRAM_START`. The program has to fit
    /// into the memory above that address.
    pub fn load_data(&mut self, data: &[u8])
        requires
            old(self).wf(),
            data@.len() <= RAM_SIZE - PROGRAM_START,
        ensures
            final(self).wf(),
            final(self)@ == old(self)@.load(data@),
    {
        let mut k: usize = 0;
        while k < data.len()
            invariant
                k <= data@.len() <= RAM_SIZE - PROGRAM_START,
                self.wf(),
                self@ == (Machine { memory: self@.memory, ..old(self)@ }),
                forall|a: int|
                    0 <= a < RAM_SIZE ==> #[trigger] self@.memory[a] == if PROGRAM_START <= a
                        < PROGRAM_START + k {
                        data@[a - PROGRAM_START]
                    } else {
                        old(self)@.memory[a]
                    },
            decreases data@.len() - k,
        {
            self.ram[PROGRAM_START + k] = data[k];
            k += 1;
        }
    }

    /// Replaces the keypad snapshot.
    pub fn set_keys(&mut self, keys: &[bool; 16])
        requires
            old(self).wf(),
        ensures
            final(self).wf(),
            final(self)@ == (Machine { keys: keys@, ..old(self)@ }),
    {
        self.keys = *keys;
    }

    /// The display, row by row.
    pub fn get_framebuffer(&self) -> (rows: &Vec<Vec<bool>>)
        ensures
            grid(rows) == self@.pixels,
    {
        &self.framebuffer
    }

    /// The program counter.
    pub fn pc(&self) -> (pc: usize)
        ensures
            pc == self@.pc,
    {
        self.pc
    }

    /// The index register `I`.
    pub fn index(&self) -> (index: u16)
        ensures
            index == self@.index,
    {
        self.i
    }

    /// The registers `V0` to `VF`.
    pub fn registers(&self) -> (registers: &Vec<u8>)
        ensures
            registers@ == self@.registers,
    {
        &self.registers
    }

    /// All of memory.
    pub fn memory(&self) -> (memory: &Vec<u8>)
        ensures
            memory@ == self@.memory,
    {
        &self.ram
    }

    /// The call stack, innermost return address last.
    pub fn stack(&self) -> (stack: &Vec<usize>)
        ensures
            stack@ == self@.stack,
    {
        &self.stack
    }

    /// The keypad snapshot.
    pub fn keys(&self) -> (keys: &[bool; 16])
        ensures
            keys@ == self@.keys,
    {
        &self.keys
    }

    /// The delay timer.
    pub fn delay_timer(&self) -> (timer: u8)
        ensures
            timer == self@.delay_timer,
    {
        self.delay_timer
    }

    /// The sound timer.
    pub fn sound_timer(&self) -> (timer: u8)
        ensures
            timer == self@.sound_timer,
    {
        self.sound_timer
    }

    /// Writes one byte of memory. Returns whether `address` lies inside
    /// memory; if it does not, nothing changes.
    pub fn write_memory(&mut self, address: usize, value: u8) -> (written: bool)
        requires
            old(self).wf(),
        ensures
            final(self).wf(),
            written == (address < RAM_SIZE),
            written ==> final(self)@ == (Machine {
                memory: old(self)@.memory.update(address as int, value),
                ..old(self)@
            }),
            !written ==> final(self)@ == old(self)@,
    {
        if address < RAM_SIZE {
            self.ram[address] = value;
            true
        } else {
            false
        }
    }

    /// Sets the pixel in column `x` of row `y`. Returns whether the position
    /// lies on the display; if it does not, nothing changes.
    pub fn set_pixel(&mut self, x: usize, y: usize, on: bool) -> (written: bool)
        requires
            old(self).wf(),
        ensures
            final(self).wf(),
            written == (x < DISPLAY_WIDTH && y < DISPLAY_HEIGHT),
            written ==> final(self)@ == (Machine {
                pixels: old(self)@.pixels.update(
                    y as int,
                    old(self)@.pixels[y as int].update(x as int, on),
                ),
                ..old(self)@
            }),
            !written ==> final(self)@ == old(self)@,
    {
        if x < DISPLAY_WIDTH && y < DISPLAY_HEIGHT {
            self.framebuffer[y][x] = on;
            assert(self@.pixels =~~= old(self)@.pixels.update(
                y as int,
                old(self)@.pixels[y as int].update(x as int, on),
            ));
            true
        } else {
            false
        }
    }

    /// Lets one timer interval pass: each timer that is not yet 0 counts
    /// down by 1.
    pub fn tick_timers(&mut self)
        requires
            old(self).wf(),
        ensures
            final(self).wf(),
            final(self)@ == old(self)@.tick_timers(),
    {
        if self.delay_timer > 0 {
            self.delay_timer -= 1;
        }
        if self.sound_timer > 0 {
            self.sound_timer -= 1;
        }
    }

    /// The instruction word at the program counter.
    fn fetch(&self) -> (word: Option<u16>)
        requires
            self.wf(),
        ensures
            word == self@.fetch(),
    {
        if self.pc < RAM_SIZE - 1 {
            let high: u16 = self.ram[self.pc] as u16;
            let low: u16 = self.ram[self.pc + 1] as u16;
            Some(high * 256 + low)
        } else {
            None
        }
    }

    /// The error, if any, that keeps `instruction` from executing now.
    fn check(&self, instruction: Instruction) -> (error: Option<StepError>)
        requires
            self.wf(),
            instruction.wf(),
        ensures
            error == self@.fault(instruction),
    {
        let span: usize = match instruction {
            Instruction::Return => {
                if self.stack.len() == 0 {
                    return Some(StepError::StackUnderflow { pc: self.pc });
                }
                return None;
            },
            Instruction::SkipIfKeyPressed { x } | Instruction::SkipIfKeyNotPressed { x } => {
                let key: u8 = self.registers[x as usize];
                if key as usize >= KEY_COUNT {
                    return Some(StepError::InvalidKey { pc: self.pc, instruction, key });
                }
                return None;
            },
            Instruction::Draw { rows, .. } => rows as usize,
            Instruction::StoreDecimal { .. } => 3,
            Instruction::StoreRegisters { x } | Instruction::LoadRegisters { x } => x as usize + 1,
            _ => 0,
        };
        if span > 0 && self.i as usize + span > RAM_SIZE {
            let address: usize = if self.i as usize >= RAM_SIZE {
                self.i as usize
            } else {
                RAM_SIZE
            };
            Some(StepError::MemoryOutOfBounds { pc: self.pc, instruction, address })
        } else {
            None
        }
    }

    /// The lowest-indexed key that is held down.
    fn pressed_key(&self) -> (key: Option<u8>)
        requires
            self.wf(),
        ensures
            match key {
                Some(k) => lowest_pressed(self@.keys) == Some(k as int),
                None => lowest_pressed(self@.keys) is None,
            },
    {
        let mut k: u8 = 0;
        while k < 16
            invariant
                k <= 16,
                self.keys@.len() == 16,
                forall|lower: int| 0 <= lower < k ==> !self.keys@[lower],
            decreases 16 - k,
        {
            if self.keys[k as usize] {
                assert(is_lowest_pressed(self@.keys, k as int));
                return Some(k);
            }
            k += 1;
        }
        None
    }

    /// Sets the flag register to 1 or 0.
    fn set_flag(&mut self, flag: bool)
        requires
            old(self).wf(),
        ensures
            final(self).wf(),
            final(self)@ == old(self)@.with_flag(flag),
    {
        self.registers[FLAG_REGISTER as usize] = if flag {
            1
        } else {
            0
        };
    }

    /// Turns every pixel off.
    fn clear_screen(&mut self)
        requires
            old(self).wf(),
        ensures
            final(self).wf(),
            final(self)@ == (Machine { pixels: blank_screen(), ..old(self)@ }),
    {
        proof {
            lemma_rows_shaped(&self.framebuffer);
        }
        let mut y: usize = 0;
        while y < DISPLAY_HEIGHT
            invariant
                y <= DISPLAY_HEIGHT,
                rows_shaped(&self.framebuffer),
                self@ == (Machine { pixels: self@.pixels, ..old(self)@ }),
                forall|r: int, c: int|
                    0 <= r < y && 0 <= c < DISPLAY_WIDTH ==> !(#[trigger] self.framebuffer@[r]@[c]),
            decreases DISPLAY_HEIGHT - y,
        {
            let mut x: usize = 0;
            while x < DISPLAY_WIDTH
                invariant
                    y < DISPLAY_HEIGHT,
                    x <= DISPLAY_WIDTH,
                    rows_shaped(&self.framebuffer),
                    self@ == (Machine { pixels: self@.pixels, ..old(self)@ }),
                    forall|r: int, c: int|
                        0 <= r < y && 0 <= c < DISPLAY_WIDTH ==> !(
                        #[trigger] self.framebuffer@[r]@[c]),
                    forall|c: int| 0 <= c < x ==> !(#[trigger] self.framebuffer@[y as int]@[c]),
                decreases DISPLAY_WIDTH - x,
            {
                self.framebuffer[y][x] = false;
                x += 1;
            }
            y += 1;
        }
        proof {
            lemma_rows_shaped(&self.framebuffer);
        }
        assert(self@.pixels =~~= blank_screen());
    }

    /// XORs the sprite of `rows` rows at `I` onto the display with its top
    /// left corner at `(vx, vy)`, wrapping at the edges, and sets the flag
    /// register to 1 if that turns a lit pixel off and to 0 otherwise.
    fn draw(&mut self, vx: u8, vy: u8, rows: u8)
        requires
            old(self).wf(),
            rows < 16,
            old(self)@.index + rows <= RAM_SIZE || rows == 0,
        ensures
            final(self).wf(),
            final(self)@ == (Machine {
                pixels: old(self)@.drawn_pixels(vx, vy, rows),
                ..old(self)@
            }).with_flag(old(self)@.sprite_collides(vx, vy, rows)),
    {
        let ghost before = self@;
        proof {
            lemma_rows_shaped(&self.framebuffer);
            lemma_draw_rows(before, vx, vy, rows, 0);
        }
        self.registers[FLAG_REGISTER as usize] = 0;
        let mut row: u8 = 0;
        while row < rows
            invariant
                row <= rows < 16,
                before.wf(),
                before.index + rows <= RAM_SIZE || rows == 0,
                rows_shaped(&self.framebuffer),
                self@ == (Machine { pixels: self@.pixels, ..before }).with_flag(
                    collided_before(before, vx, vy, rows, row as int, 0),
                ),
                forall|x: int, y: int|
                    0 <= x < DISPLAY_WIDTH && 0 <= y < DISPLAY_HEIGHT ==> #[trigger] self.framebuffer@[y]@[x]
                        == (before.pixels[y][x] ^ covered_before(
                        before,
                        vx,
                        vy,
                        rows,
                        row as int,
                        0,
                        x,
                        y,
                    )),
            decreases rows - row,
        {
            let y: usize = (vy as usize + row as usize) % DISPLAY_HEIGHT;
            let sprite_row: u8 = self.ram[self.i as usize + row as usize];
            let mut column: u8 = 0;
            while column < 8
                invariant
                    column <= 8,
                    row < rows < 16,
                    before.wf(),
                    before.index + rows <= RAM_SIZE,
                    y == (vy + row) % (DISPLAY_HEIGHT as int),
                    sprite_row == before.memory[before.index + row],
                    rows_shaped(&self.framebuffer),
                    self@ == (Machine { pixels: self@.pixels, ..before }).with_flag(
                        collided_before(before, vx, vy, rows, row as int, column as int),
                    ),
                    forall|x: int, y: int|
                        0 <= x < DISPLAY_WIDTH && 0 <= y < DISPLAY_HEIGHT ==> #[trigger] self.framebuffer@[y]@[x]
                            == (before.pixels[y][x] ^ covered_before(
                            before,
                            vx,
                            vy,
                            rows,
                            row as int,
                            column as int,
                            x,
                            y,
                        )),
                decreases 8 - column,
            {
                let x: usize = (vx as usize + column as usize) % DISPLAY_WIDTH;
                let bit: bool = (sprite_row >> (7 - column)) & 1 == 1;
                proof {
                    lemma_draw_bit(before, vx, vy, rows, row as int, column as int);
                }
                if self.framebuffer[y][x] && bit {
                    self.registers[FLAG_REGISTER as usize] = 1;
                }
                self.framebuffer[y][x] ^= bit;
                column += 1;
            }
            proof {
                lemma_draw_rows(before, vx, vy, rows, row as int);
            }
            row += 1;
        }
        proof {
            lemma_draw_rows(before, vx, vy, rows, rows as int);
            lemma_rows_shaped(&self.framebuffer);
            assert(self@.pixels =~~= before.drawn_pixels(vx, vy, rows));
        }
    }

    /// Stores `V0..=VX` to memory from `I` on.
    fn store_registers(&mut self, x: u8)
        requires
            old(self).wf(),
            x < 16,
            old(self)@.index + x < RAM_SIZE,
        ensures
            final(self).wf(),
            final(self)@ == (Machine { memory: old(self)@.stored_registers(x), ..old(self)@ }),
    {
        let base: usize = self.i as usize;
        let mut offset: usize = 0;
        while offset <= x as usize
            invariant
                offset <= x + 1,
                x < 16,
                base == old(self)@.index,
                base + x < RAM_SIZE,
                old(self).wf(),
                self.wf(),
                self@ == (Machine { memory: self@.memory, ..old(self)@ }),
                forall|a: int|
                    0 <= a < RAM_SIZE ==> #[trigger] self@.memory[a] == if base <= a < base
                        + offset {
                        old(self)@.registers[a - base]
                    } else {
                        old(self)@.memory[a]
                    },
            decreases x + 1 - offset,
        {
            self.ram[base + offset] = self.registers[offset];
            offset += 1;
        }
    }

    /// Loads `V0..=VX` from memory at `I` on.
    fn load_registers(&mut self, x: u8)
        requires
            old(self).wf(),
            x < 16,
            old(self)@.index + x < RAM_SIZE,
        ensures
            final(self).wf(),
            final(self)@ == (Machine { registers: old(self)@.loaded_registers(x), ..old(self)@ }),
    {
        let base: usize = self.i as usize;
        let mut offset: usize = 0;
        while offset <= x as usize
            invariant
                offset <= x + 1,
                x < 16,
                base == old(self)@.index,
                base + x < RAM_SIZE,
                old(self).wf(),
                self.wf(),
                self@ == (Machine { registers: self@.registers, ..old(self)@ }),
                forall|r: int|
                    0 <= r < REGISTER_COUNT ==> #[trigger] self@.registers[r] == if r < offset {
                        old(self)@.memory[base + r]
                    } else {
                        old(self)@.registers[r]
                    },
            decreases x + 1 - offset,
        {
            self.registers[offset] = self.ram[base + offset];
            offset += 1;
        }
    }

    /// Moves the program counter past one more instruction if `condition`
    /// holds.
    fn skip_if(&mut self, condition: bool)
        requires
            old(self).wf(),
            old(self)@.pc <= RAM_SIZE,
        ensures
            final(self).wf(),
            final(self)@ == old(self)@.skip_if(condition),
    {
        if condition {
            self.pc += 2;
        }
    }

    /// The instructions that clear the display or redirect control.
    fn perform_control(&mut self, instruction: Instruction)
        requires
            old(self).wf(),
            instruction.wf(),
            old(self)@.fault(instruction) is None,
            instruction is ClearScreen || instruction is Return || instruction is Jump
                || instruction is Call || instruction is JumpWithOffset || instruction is Unknown,
        ensures
            final(self).wf(),
            forall|random: u8| final(self)@ == old(self)@.perform(instruction, random),
    {
        match instruction {
            Instruction::ClearScreen => {
                self.clear_screen();
            },
            Instruction::Return => {
                let target: Option<usize> = self.stack.pop();
                if let Some(pc) = target {
                    self.pc = pc;
                }
            },
            Instruction::Jump { address } => {
                self.pc = address as usize;
            },
            Instruction::Call { address } => {
                self.stack.push(self.pc);
                self.pc = address as usize;
            },
            Instruction::JumpWithOffset { address } => {
                self.pc = address as usize + self.registers[0] as usize;
            },
            _ => {},
        }
    }

    /// The instructions that conditionally skip their successor, and the
    /// wait for a key.
    fn perform_skip(&mut self, instruction: Instruction)
        requires
            old(self).wf(),
            instruction.wf(),
            2 <= old(self)@.pc <= RAM_SIZE,
            old(self)@.fault(instruction) is None,
            instruction is SkipIfEqual || instruction is SkipIfNotEqual
                || instruction is SkipIfRegistersEqual || instruction is SkipIfRegistersNotEqual
                || instruction is SkipIfKeyPressed || instruction is SkipIfKeyNotPressed
                || instruction is WaitForKey,
        ensures
            final(self).wf(),
            forall|random: u8| final(self)@ == old(self)@.perform(instruction, random),
    {
        match instruction {
            Instruction::SkipIfEqual { x, value } => {
                self.skip_if(self.registers[x as usize] == value);
            },
            Instruction::SkipIfNotEqual { x, value } => {
                self.skip_if(self.registers[x as usize] != value);
            },
            Instruction::SkipIfRegistersEqual { x, y } => {
                self.skip_if(self.registers[x as usize] == self.registers[y as usize]);
            },
            Instruction::SkipIfRegistersNotEqual { x, y } => {
                self.skip_if(self.registers[x as usize] != self.registers[y as usize]);
            },
            Instruction::SkipIfKeyPressed { x } => {
                self.skip_if(self.keys[self.registers[x as usize] as usize]);
            },
            Instruction::SkipIfKeyNotPressed { x } => {
                self.skip_if(!self.keys[self.registers[x as usize] as usize]);
            },
            Instruction::WaitForKey { x } => {
                match self.pressed_key() {
                    Some(key) => {
                        self.registers[x as usize] = key;
                    },
                    None => {
                        self.pc -= 2;
                    },
                }
            },
            _ => {},
        }
    }

    /// The instructions that compute a register from registers, an
    /// immediate or the random byte.
    fn perform_arithmetic(&mut self, instruction: Instruction, random: u8)
        requires
            old(self).wf(),
            instruction.wf(),
            instruction is Load || instruction is AddImmediate || instruction is Copy
                || instruction is Or || instruction is And || instruction is Xor
                || instruction is Add || instruction is Subtract
                || instruction is SubtractReversed || instruction is ShiftRight
                || instruction is ShiftLeft || instruction is Random,
        ensures
            final(self).wf(),
            final(self)@ == old(self)@.perform(instruction, random),
    {
        match instruction {
            Instruction::Load { x, value } => {
                self.registers[x as usize] = value;
            },
            Instruction::AddImmediate { x, value } => {
                self.registers[x as usize] = self.registers[x as usize].wrapping_add(value);
            },
            Instruction::Copy { x, y } => {
                self.registers[x as usize] = self.registers[y as usize];
            },
            Instruction::Or { x, y } => {
                self.registers[x as usize] = self.registers[x as usize] | self.registers[y as usize];
            },
            Instruction::And { x, y } => {
                self.registers[x as usize] = self.registers[x as usize] & self.registers[y as usize];
            },
            Instruction::Xor { x, y } => {
                self.registers[x as usize] = self.registers[x as usize] ^ self.registers[y as usize];
            },
            Instruction::Add { x, y } => {
                let vx: u8 = self.registers[x as usize];
                let vy: u8 = self.registers[y as usize];
                self.registers[x as usize] = vx.wrapping_add(vy);
                self.set_flag(vx as u16 + vy as u16 > 255);
            },
            Instruction::Subtract { x, y } => {
                let vx: u8 = self.registers[x as usize];
                let vy: u8 = self.registers[y as usize];
                self.registers[x as usize] = vx.wrapping_sub(vy);
                self.set_flag(vx >= vy);
            },
            Instruction::SubtractReversed { x, y } => {
                let vx: u8 = self.registers[x as usize];
                let vy: u8 = self.registers[y as usize];
                self.registers[x as usize] = vy.wrapping_sub(vx);
                self.set_flag(vy >= vx);
            },
            Instruction::ShiftRight { x, y } => {
                let vy: u8 = self.registers[y as usize];
                assert(vy >> 1 == vy / 2 && (vy & 1 == 1) == (vy % 2 == 1)) by (bit_vector);
                self.registers[x as usize] = vy >> 1;
                self.set_flag(vy & 1 == 1);
            },
            Instruction::ShiftLeft { x, y } => {
                let vy: u8 = self.registers[y as usize];
                assert(vy << 1 == (vy * 2) % 256 && ((vy >> 7) & 1 == 1) == (vy >= 128))
                    by (bit_vector);
                self.registers[x as usize] = vy << 1;
                self.set_flag((vy >> 7) & 1 == 1);
            },
            Instruction::Random { x, mask } => {
                self.registers[x as usize] = random & mask;
            },
            _ => {},
        }
    }

    /// The instructions that work on the index register, the timers, memory
    /// or the display.
    fn perform_memory(&mut self, instruction: Instruction)
        requires
            old(self).wf(),
            instruction.wf(),
            old(self)@.fault(instruction) is None,
            instruction is LoadIndex || instruction is AddToIndex || instruction is LoadGlyph
                || instruction is StoreDecimal || instruction is StoreRegisters
                || instruction is LoadRegisters || instruction is ReadDelayTimer
                || instruction is SetDelayTimer || instruction is SetSoundTimer
                || instruction is Draw,
        ensures
            final(self).wf(),
            forall|random: u8| final(self)@ == old(self)@.perform(instruction, random),
    {
        match instruction {
            Instruction::LoadIndex { address } => {
                self.i = address;
            },
            Instruction::AddToIndex { x } => {
                let vx: u8 = self.registers[x as usize];
                let outside: bool = self.i as usize + vx as usize >= RAM_SIZE;
                self.i = self.i.wrapping_add(vx as u16);
                self.set_flag(outside);
            },
            Instruction::LoadGlyph { x } => {
                self.i = self.registers[x as usize] as u16 * 5;
            },
            Instruction::StoreDecimal { x } => {
                let vx: u8 = self.registers[x as usize];
                let base: usize = self.i as usize;
                self.ram[base] = vx / 100;
                self.ram[base + 1] = vx / 10 % 10;
                self.ram[base + 2] = vx % 10;
            },
            Instruction::StoreRegisters { x } => {
                self.store_registers(x);
            },
            Instruction::LoadRegisters { x } => {
                self.load_registers(x);
            },
            Instruction::ReadDelayTimer { x } => {
                self.registers[x as usize] = self.delay_timer;
            },
            Instruction::SetDelayTimer { x } => {
                self.delay_timer = self.registers[x as usize];
            },
            Instruction::SetSoundTimer { x } => {
                self.sound_timer = self.registers[x as usize];
            },
            Instruction::Draw { x, y, rows } => {
                let vx: u8 = self.registers[x as usize];
                let vy: u8 = self.registers[y as usize];
                self.draw(vx, vy, rows);
            },
            _ => {},
        }
    }

    /// Carries out the instruction at the program counter, which nothing
    /// keeps from executing.
    fn execute(&mut self, instruction: Instruction, random: u8)
        requires
            old(self).wf(),
            instruction.wf(),
            old(self)@.pc + 1 < RAM_SIZE,
            old(self)@.fault(instruction) is None,
        ensures
            final(self).wf(),
            final(self)@ == old(self)@.execute(instruction, random),
    {
        self.pc += 2;
        match instruction {
            Instruction::ClearScreen
            | Instruction::Return
            | Instruction::Jump { .. }
            | Instruction::Call { .. }
            | Instruction::JumpWithOffset { .. }
            | Instruction::Unknown { .. } => self.perform_control(instruction),
            Instruction::SkipIfEqual { .. }
            | Instruction::SkipIfNotEqual { .. }
            | Instruction::SkipIfRegistersEqual { .. }
            | Instruction::SkipIfRegistersNotEqual { .. }
            | Instruction::SkipIfKeyPressed { .. }
            | Instruction::SkipIfKeyNotPressed { .. }
            | Instruction::WaitForKey { .. } => self.perform_skip(instruction),
            Instruction::Load { .. }
            | Instruction::AddImmediate { .. }
            | Instruction::Copy { .. }
            | Instruction::Or { .. }
            | Instruction::And { .. }
            | Instruction::Xor { .. }
            | Instruction::Add { .. }
            | Instruction::Subtract { .. }
            | Instruction::SubtractReversed { .. }
            | Instruction::ShiftRight { .. }
            | Instruction::ShiftLeft { .. }
            | Instruction::Random { .. } => self.perform_arithmetic(instruction, random),
            Instruction::LoadIndex { .. }
            | Instruction::AddToIndex { .. }
            | Instruction::LoadGlyph { .. }
            | Instruction::StoreDecimal { .. }
            | Instruction::StoreRegisters { .. }
            | Instruction::LoadRegisters { .. }
            | Instruction::ReadDelayTimer { .. }
            | Instruction::SetDelayTimer { .. }
            | Instruction::SetSoundTimer { .. }
            | Instruction::Draw { .. } => self.perform_memory(instruction),
        }
    }

    /// The instruction that the next step will execute, or `None` where the
    /// program counter does not leave room for one inside memory.
    pub fn next_instruction(&self) -> (instruction: Option<Instruction>)
        requires
            self.wf(),
        ensures
            instruction == match self@.fetch() {
                Some(opcode) => Some(decode_spec(opcode)),
                None => None,
            },
    {
        match self.fetch() {
            Some(opcode) => Some(decode(opcode)),
            None => None,
        }
    }

    /// Updates the timers for a clock reading of `now_nanos`: if more than
    /// a sixtieth of a second has passed since they last counted down, they
    /// count down once and `now_nanos` is remembered as the time they did.
    /// Returns whether they counted down.
    pub fn update_timers_at(&mut self, now_nanos: u128) -> (ticked: bool)
        requires
            old(self).wf(),
        ensures
            final(self).wf(),
            ticked == old(self)@.timers_due(now_nanos as int),
            final(self)@ == old(self)@.update_timers(now_nanos as int),
    {
        if now_nanos > self.last_timer_update && timer_interval_elapsed(
            now_nanos - self.last_timer_update,
        ) {
            self.last_timer_update = now_nanos;
            self.tick_timers();
            true
        } else {
            false
        }
    }

    /// Reads the clock and updates the timers for that reading, as
    /// `update_timers_at` does. Returns whether they counted down.
    pub fn update_timers(&mut self) -> (ticked: bool)
        requires
            old(self).wf(),
        ensures
            final(self).wf(),
            exists|now: int|
                ticked == old(self)@.timers_due(now) && final(self)@ == #[trigger] old(
                    self,
                )@.update_timers(now),
    {
        let elapsed: Duration = self.clock.elapsed();
        let now_nanos: u128 = elapsed.as_nanos();
        self.update_timers_at(now_nanos)
    }

    /// Advances the machine by one instruction, with the two outside inputs
    /// given: `now_nanos` is the reading of the clock and `random` the byte
    /// that the random instruction draws. The timers are updated for the
    /// reading; then the instruction at the program counter is fetched,
    /// decoded and executed. Returns whether the display changed, or the
    /// error that kept the instruction from executing.
    pub fn step_at(&mut self, now_nanos: u128, random: u8) -> (outcome: Result<bool, StepError>)
        requires
            old(self).wf(),
        ensures
            final(self).wf(),
            (final(self)@, outcome) == old(self)@.step(now_nanos as int, random),
    {
        self.update_timers_at(now_nanos);
        let opcode: u16 = match self.fetch() {
            Some(opcode) => opcode,
            None => {
                return Err(StepError::FetchOutOfBounds { pc: self.pc });
            },
        };
        let instruction: Instruction = decode(opcode);
        if let Some(error) = self.check(instruction) {
            return Err(error);
        }
        self.execute(instruction, random);
        Ok(instruction_redraws(instruction))
    }

    /// Advances the machine by one instruction: reads the clock, draws a
    /// byte from the random source if the instruction at the program
    /// counter asks for one, and does what `step_at` does with the two.
    /// Returns whether the display changed, or the error that kept the
    /// instruction from executing.
    pub fn step(&mut self) -> (outcome: Result<bool, StepError>)
        requires
            old(self).wf(),
        ensures
            final(self).wf(),
            exists|now: int, random: u8|
                (final(self)@, outcome) == #[trigger] old(self)@.step(now, random),
    {
        let elapsed: Duration = self.clock.elapsed();
        let now_nanos: u128 = elapsed.as_nanos();
        let random: u8 = match self.next_instruction() {
            Some(Instruction::Random { .. }) => random_byte(&mut self.rng),
            _ => 0,
        };
        self.step_at(now_nanos, random)
    }

    /// Puts registers, index, program counter, call stack, timers and
    /// display back to their startup values. Memory, and with it the loaded
    /// program, stays as it is, and so does the keypad snapshot; the clock
    /// runs on.
    pub fn reset(&mut self)
        requires
            old(self).wf(),
        ensures
            final(self).wf(),
            final(self)@ == old(self)@.reset(),
    {
        self.clear_screen();
        let mut r: usize = 0;
        while r < REGISTER_COUNT
            invariant
                r <= REGISTER_COUNT,
                self.wf(),
                self@ == (Machine {
                    registers: self@.registers,
                    pixels: blank_screen(),
                    ..old(self)@
                }),
                forall|k: int| 0 <= k < r ==> #[trigger] self@.registers[k] == 0,
            decreases REGISTER_COUNT - r,
        {
            self.registers[r] = 0;
            r += 1;
        }
        self.stack.clear();
        self.pc = PROGRAM_START;
        self.i = 0;
        self.delay_timer = 0;
        self.sound_timer = 0;
    }
}

} // verus!
