//! The mathematical model of the machine: its state as sequences and
//! integers, and the effect of every instruction as a function from state to
//! state. The executable interpreter is specified against this model.

use vstd::prelude::*;
use crate::font::{FONT, FONT_SIZE, GLYPH_SIZE};
use crate::instruction::{decode_spec, Instruction};

verus! {

/// Number of addressable bytes.
pub const RAM_SIZE: usize = 4096;

/// Where programs are loaded and where execution starts.
pub const PROGRAM_START: usize = 0x200;

/// Pixels per display row.
pub const DISPLAY_WIDTH: usize = 64;

/// Number of display rows.
pub const DISPLAY_HEIGHT: usize = 32;

/// Number of general-purpose registers.
pub const REGISTER_COUNT: usize = 16;

/// Number of keys on the keypad.
pub const KEY_COUNT: usize = 16;

/// The register that receives carry, borrow and collision flags.
pub const FLAG_REGISTER: u8 = 0xF;

/// Why a step could not be carried out. A failed step leaves the machine as
/// it was, apart from the timers.
#[derive(Clone, Copy, Debug, PartialEq, Eq, Structural)]
pub enum StepError {
    /// The two bytes at `pc` do not both lie inside memory.
    FetchOutOfBounds { pc: usize },
    /// A return was executed at `pc` while the call stack was empty.
    StackUnderflow { pc: usize },
    /// The instruction at `pc` reaches memory at `address`, past the end.
    MemoryOutOfBounds { pc: usize, instruction: Instruction, address: usize },
    /// The instruction at `pc` asks for key `key`, which the keypad lacks.
    InvalidKey { pc: usize, instruction: Instruction, key: u8 },
}

/// The architectural state of one machine.
#[verifier::ext_equal]
pub struct Machine {
    /// Memory, byte by byte.
    pub memory: Seq<u8>,
    /// The registers `V0` to `VF`.
    pub registers: Seq<u8>,
    /// The index register `I`.
    pub index: u16,
    /// The program counter.
    pub pc: usize,
    /// Return addresses, innermost call last.
    pub stack: Seq<usize>,
    /// The delay timer.
    pub delay_timer: u8,
    /// The sound timer.
    pub sound_timer: u8,
    /// The display, row by row; `pixels[y][x]` is the pixel in column `x` of
    /// row `y`.
    pub pixels: Seq<Seq<bool>>,
    /// Which keys are held down.
    pub keys: Seq<bool>,
    /// When the timers last counted down, in nanoseconds on the machine's
    /// clock; 0 until they first do.
    pub last_tick: int,
}

/// A display with every pixel off.
pub open spec fn blank_screen() -> Seq<Seq<bool>> {
    Seq::new(DISPLAY_HEIGHT as nat, |y: int| Seq::new(DISPLAY_WIDTH as nat, |x: int| false))
}

/// Whether `pixels` has the dimensions of the display.
pub open spec fn screen_shaped(pixels: Seq<Seq<bool>>) -> bool {
    &&& pixels.len() == DISPLAY_HEIGHT
    &&& forall|y: int| 0 <= y < DISPLAY_HEIGHT ==> (#[trigger] pixels[y]).len() == DISPLAY_WIDTH
}

/// Bit `column` of a sprite row, counted from the most significant bit.
pub open spec fn sprite_bit(row: u8, column: int) -> bool {
    (row >> ((7 - column) as u8)) & 1 == 1
}

/// Whether `key` is the lowest-indexed key that is held down.
pub open spec fn is_lowest_pressed(keys: Seq<bool>, key: int) -> bool {
    &&& 0 <= key < keys.len()
    &&& keys[key]
    &&& forall|lower: int| 0 <= lower < key ==> !keys[lower]
}

/// The lowest-indexed key that is held down, if any is.
pub open spec fn lowest_pressed(keys: Seq<bool>) -> Option<int> {
    if exists|key: int| is_lowest_pressed(keys, key) {
        Some(choose|key: int| is_lowest_pressed(keys, key))
    } else {
        None
    }
}

/// The value of a timer one tick later.
pub open spec fn ticked(timer: u8) -> u8 {
    if timer > 0 {
        (timer - 1) as u8
    } else {
        0
    }
}

/// Whether `elapsed_nanos` nanoseconds are more than the timer interval, a
/// sixtieth of a second.
pub open spec fn interval_elapsed(elapsed_nanos: int) -> bool {
    elapsed_nanos * 60 > 1_000_000_000
}

impl Machine {
    /// Memory, registers, keypad and display have their fixed sizes.
    pub open spec fn wf(self) -> bool {
        &&& self.memory.len() == RAM_SIZE
        &&& self.registers.len() == REGISTER_COUNT
        &&& self.keys.len() == KEY_COUNT
        &&& screen_shaped(self.pixels)
    }

    /// The machine as it is after construction: the font at the bottom of
    /// otherwise zeroed memory, everything else cleared, ready to run at
    /// `PROGRAM_START`.
    pub open spec fn initial() -> Machine {
        Machine {
            memory: Seq::new(
                RAM_SIZE as nat,
                |a: int| if 0 <= a < FONT_SIZE { FONT@[a] } else { 0u8 },
            ),
            registers: Seq::new(REGISTER_COUNT as nat, |r: int| 0u8),
            index: 0,
            pc: PROGRAM_START,
            stack: Seq::empty(),
            delay_timer: 0,
            sound_timer: 0,
            pixels: blank_screen(),
            keys: Seq::new(KEY_COUNT as nat, |k: int| false),
            last_tick: 0,
        }
    }

    /// Memory with `data` copied in at `PROGRAM_START`.
    pub open spec fn load(self, data: Seq<u8>) -> Machine {
        Machine {
            memory: Seq::new(
                self.memory.len(),
                |a: int|
                    if PROGRAM_START <= a < PROGRAM_START + data.len() {
                        data[a - PROGRAM_START]
                    } else {
                        self.memory[a]
                    },
            ),
            ..self
        }
    }

    /// The startup state, except that memory and the keypad are kept, and
    /// that the clock runs on.
    pub open spec fn reset(self) -> Machine {
        Machine {
            memory: self.memory,
            keys: self.keys,
            last_tick: self.last_tick,
            ..Machine::initial()
        }
    }

    /// Both timers one tick later.
    pub open spec fn tick_timers(self) -> Machine {
        Machine {
            delay_timer: ticked(self.delay_timer),
            sound_timer: ticked(self.sound_timer),
            ..self
        }
    }

    /// Whether, at time `now` on the machine's clock, more than a timer
    /// interval has passed since the timers last counted down.
    pub open spec fn timers_due(self, now: int) -> bool {
        interval_elapsed(now - self.last_tick)
    }

    /// The machine after the clock has been read as `now`: if the timers
    /// are due they count down once and `now` is remembered as the time
    /// they did; else nothing changes.
    pub open spec fn update_timers(self, now: int) -> Machine {
        if self.timers_due(now) {
            Machine { last_tick: now, ..self.tick_timers() }
        } else {
            self
        }
    }

    /// The value of register `r`.
    pub open spec fn register(self, r: u8) -> u8 {
        self.registers[r as int]
    }

    /// The machine with register `r` set to `value`.
    pub open spec fn with_register(self, r: u8, value: u8) -> Machine {
        Machine { registers: self.registers.update(r as int, value), ..self }
    }

    /// The machine with the flag register set to 1 or 0.
    pub open spec fn with_flag(self, flag: bool) -> Machine {
        self.with_register(FLAG_REGISTER, if flag { 1u8 } else { 0u8 })
    }

    /// The machine with the program counter moved past one more instruction
    /// if `condition` holds.
    pub open spec fn skip_if(self, condition: bool) -> Machine {
        if condition {
            Machine { pc: (self.pc + 2) as usize, ..self }
        } else {
            self
        }
    }

    /// The instruction word at the program counter, big-endian, or `None`
    /// where it would not lie inside memory.
    pub open spec fn fetch(self) -> Option<u16> {
        if self.pc + 1 < RAM_SIZE {
            Some((self.memory[self.pc as int] * 256 + self.memory[self.pc + 1]) as u16)
        } else {
            None
        }
    }

    /// How many bytes of memory, starting at `I`, an instruction reads or
    /// writes.
    pub open spec fn span(instruction: Instruction) -> int {
        match instruction {
            Instruction::Draw { rows, .. } => rows as int,
            Instruction::StoreDecimal { .. } => 3,
            Instruction::StoreRegisters { x } | Instruction::LoadRegisters { x } => x + 1,
            _ => 0,
        }
    }

    /// The first address past the end of memory among those from `I` on.
    pub open spec fn first_outside(self) -> usize {
        if self.index as int >= RAM_SIZE {
            self.index as usize
        } else {
            RAM_SIZE
        }
    }

    /// The error, if any, that keeps `instruction` from executing in this
    /// state.
    pub open spec fn fault(self, instruction: Instruction) -> Option<StepError> {
        match instruction {
            Instruction::Return => if self.stack.len() == 0 {
                Some(StepError::StackUnderflow { pc: self.pc })
            } else {
                None
            },
            Instruction::SkipIfKeyPressed { x } | Instruction::SkipIfKeyNotPressed { x } => if self.register(x) as int >= KEY_COUNT {
                Some(
                    StepError::InvalidKey { pc: self.pc, instruction, key: self.register(x) },
                )
            } else {
                None
            },
            _ => if self.index + Self::span(instruction) > RAM_SIZE && Self::span(instruction) > 0 {
                Some(
                    StepError::MemoryOutOfBounds {
                        pc: self.pc,
                        instruction,
                        address: self.first_outside(),
                    },
                )
            } else {
                None
            },
        }
    }

    /// Whether the sprite of `rows` rows at `I`, drawn with its top left
    /// corner at `(vx, vy)`, has an on bit at pixel `(x, y)`. Rows wrap from
    /// the bottom edge to the top and columns from the right edge to the
    /// left.
    pub open spec fn sprite_covers(self, vx: u8, vy: u8, rows: u8, x: int, y: int) -> bool {
        let row = (y - vy) % (DISPLAY_HEIGHT as int);
        let column = (x - vx) % (DISPLAY_WIDTH as int);
        row < rows && column < 8 && sprite_bit(self.memory[self.index + row], column)
    }

    /// The display after the sprite has been XORed onto it.
    pub open spec fn drawn_pixels(self, vx: u8, vy: u8, rows: u8) -> Seq<Seq<bool>> {
        Seq::new(
            DISPLAY_HEIGHT as nat,
            |y: int|
                Seq::new(
                    DISPLAY_WIDTH as nat,
                    |x: int| self.pixels[y][x] ^ self.sprite_covers(vx, vy, rows, x, y),
                ),
        )
    }

    /// Whether drawing the sprite turns some lit pixel off.
    pub open spec fn sprite_collides(self, vx: u8, vy: u8, rows: u8) -> bool {
        exists|x: int, y: int|
            0 <= x < DISPLAY_WIDTH && 0 <= y < DISPLAY_HEIGHT && self.pixels[y][x]
                && #[trigger] self.sprite_covers(vx, vy, rows, x, y)
    }

    /// Memory with `V0..=VX` stored from `I` on.
    pub open spec fn stored_registers(self, x: u8) -> Seq<u8> {
        Seq::new(
            self.memory.len(),
            |a: int|
                if self.index <= a <= self.index + x {
                    self.registers[a - self.index]
                } else {
                    self.memory[a]
                },
        )
    }

    /// The registers with `V0..=VX` loaded from memory at `I` on.
    pub open spec fn loaded_registers(self, x: u8) -> Seq<u8> {
        Seq::new(
            self.registers.len(),
            |r: int|
                if 0 <= r <= x {
                    self.memory[self.index + r]
                } else {
                    self.registers[r]
                },
        )
    }

    /// The effect of `instruction` on a machine whose program counter has
    /// already moved past it; `random` is the byte that the random instruction
    /// draws.
    pub open spec fn perform(self, instruction: Instruction, random: u8) -> Machine {
        match instruction {
            Instruction::ClearScreen => Machine { pixels: blank_screen(), ..self },
            Instruction::Return => Machine {
                pc: self.stack.last(),
                stack: self.stack.drop_last(),
                ..self
            },
            Instruction::Jump { address } => Machine { pc: address as usize, ..self },
            Instruction::Call { address } => Machine {
                pc: address as usize,
                stack: self.stack.push(self.pc),
                ..self
            },
            Instruction::SkipIfEqual { x, value } => self.skip_if(self.register(x) == value),
            Instruction::SkipIfNotEqual { x, value } => self.skip_if(self.register(x) != value),
            Instruction::SkipIfRegistersEqual { x, y } => self.skip_if(
                self.register(x) == self.register(y),
            ),
            Instruction::SkipIfRegistersNotEqual { x, y } => self.skip_if(
                self.register(x) != self.register(y),
            ),
            Instruction::Load { x, value } => self.with_register(x, value),
            Instruction::AddImmediate { x, value } => self.with_register(
                x,
                ((self.register(x) + value) % 256) as u8,
            ),
            Instruction::Copy { x, y } => self.with_register(x, self.register(y)),
            Instruction::Or { x, y } => self.with_register(x, self.register(x) | self.register(y)),
            Instruction::And { x, y } => self.with_register(x, self.register(x) & self.register(y)),
            Instruction::Xor { x, y } => self.with_register(x, self.register(x) ^ self.register(y)),
            Instruction::Add { x, y } => self.with_register(
                x,
                ((self.register(x) + self.register(y)) % 256) as u8,
            ).with_flag(self.register(x) + self.register(y) > 255),
            Instruction::Subtract { x, y } => self.with_register(
                x,
                ((self.register(x) - self.register(y)) % 256) as u8,
            ).with_flag(self.register(x) >= self.register(y)),
            Instruction::SubtractReversed { x, y } => self.with_register(
                x,
                ((self.register(y) - self.register(x)) % 256) as u8,
            ).with_flag(self.register(y) >= self.register(x)),
            Instruction::ShiftRight { x, y } => self.with_register(
                x,
                self.register(y) / 2,
            ).with_flag(self.register(y) % 2 == 1),
            Instruction::ShiftLeft { x, y } => self.with_register(
                x,
                ((self.register(y) * 2) % 256) as u8,
            ).with_flag(self.register(y) >= 128),
            Instruction::LoadIndex { address } => Machine { index: address, ..self },
            Instruction::JumpWithOffset { address } => Machine {
                pc: (address + self.register(0)) as usize,
                ..self
            },
            Instruction::Random { x, mask } => self.with_register(x, random & mask),
            Instruction::Draw { x, y, rows } => Machine {
                pixels: self.drawn_pixels(self.register(x), self.register(y), rows),
                ..self
            }.with_flag(self.sprite_collides(self.register(x), self.register(y), rows)),
            Instruction::SkipIfKeyPressed { x } => self.skip_if(self.keys[self.register(x) as int]),
            Instruction::SkipIfKeyNotPressed { x } => self.skip_if(
                !self.keys[self.register(x) as int],
            ),
            Instruction::ReadDelayTimer { x } => self.with_register(x, self.delay_timer),
            Instruction::WaitForKey { x } => match lowest_pressed(self.keys) {
                Some(key) => self.with_register(x, key as u8),
                None => Machine { pc: (self.pc - 2) as usize, ..self },
            },
            Instruction::SetDelayTimer { x } => Machine { delay_timer: self.register(x), ..self },
            Instruction::SetSoundTimer { x } => Machine { sound_timer: self.register(x), ..self },
            Instruction::AddToIndex { x } => Machine {
                index: ((self.index + self.register(x)) % 0x10000) as u16,
                ..self
            }.with_flag(self.index + self.register(x) >= RAM_SIZE),
            Instruction::LoadGlyph { x } => Machine {
                index: (self.register(x) * GLYPH_SIZE) as u16,
                ..self
            },
            Instruction::StoreDecimal { x } => Machine {
                memory: self.memory.update(self.index as int, self.register(x) / 100).update(
                    self.index + 1,
                    self.register(x) / 10 % 10,
                ).update(self.index + 2, self.register(x) % 10),
                ..self
            },
            Instruction::StoreRegisters { x } => Machine {
                memory: self.stored_registers(x),
                ..self
            },
            Instruction::LoadRegisters { x } => Machine {
                registers: self.loaded_registers(x),
                ..self
            },
            Instruction::Unknown { .. } => self,
        }
    }

    /// The state after `instruction`, found at the program counter, has
    /// executed, where nothing keeps it from executing: the program counter
    /// moves past the instruction, then the instruction takes effect.
    pub open spec fn execute(self, instruction: Instruction, random: u8) -> Machine {
        (Machine { pc: (self.pc + 2) as usize, ..self }).perform(instruction, random)
    }

    /// Whether `instruction` reports the display as changed.
    pub open spec fn redraws(instruction: Instruction) -> bool {
        instruction is ClearScreen || instruction is Draw
    }

    /// One step of the machine: the state afterwards and what the step
    /// reports. `now` is the reading of the machine's clock and `random` the
    /// byte that the random instruction draws. First the timers are
    /// updated; then the instruction at the program counter is fetched,
    /// decoded and executed. A step that fails changes nothing but the
    /// timers.
    pub open spec fn step(self, now: int, random: u8) -> (Machine, Result<bool, StepError>) {
        let m = self.update_timers(now);
        match m.fetch() {
            None => (m, Err(StepError::FetchOutOfBounds { pc: m.pc })),
            Some(opcode) => {
                let instruction = decode_spec(opcode);
                match m.fault(instruction) {
                    Some(error) => (m, Err(error)),
                    None => (m.execute(instruction, random), Ok(Self::redraws(instruction))),
                }
            },
        }
    }
}

} // verus!
