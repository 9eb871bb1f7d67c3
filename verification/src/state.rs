//! The machine as a mathematical object: what the processor holds, and what
//! each instruction and each timer tick makes of it.
//!
//! Everything here is ghost code. The executable processor is described by
//! these functions and proved to follow them.

use vstd::prelude::*;
use crate::display::{HEIGHT, WIDTH};
use crate::error::Chip8Error;
use crate::input::first_pressed;
use crate::instruction::Instruction;
use crate::sprite::{collides, drawn};

verus! {

/// Number of bytes of memory.
pub const MEMORY_SIZE: usize = 4096;

/// Address at which a program is loaded and at which execution starts.
pub const PROGRAM_START: u16 = 0x200;

/// Number of general registers.
pub const REGISTER_COUNT: usize = 16;

/// Index of the register that doubles as carry, borrow and collision flag.
pub const FLAG_REGISTER: u8 = 15;

/// Largest number of calls that may be outstanding at once.
pub const STACK_LIMIT: usize = 16;

/// Number of glyphs in the font.
pub const GLYPH_COUNT: usize = 16;

/// Number of bytes each glyph of the font takes in memory.
pub const GLYPH_SIZE: u16 = 5;

/// Largest value for which the font instruction yields an address.
pub const GLYPH_LIMIT: u8 = 16;

/// The glyphs for the hexadecimal digits 0 to F, one row of five bytes each.
pub const CHARACTER_SPRITES: [[u8; 5]; 16] = [
    [0xF0, 0x90, 0x90, 0x90, 0xF0],
    [0x20, 0x60, 0x20, 0x20, 0x70],
    [0xF0, 0x10, 0xF0, 0x80, 0xF0],
    [0xF0, 0x10, 0xF0, 0x10, 0xF0],
    [0x90, 0x90, 0xF0, 0x10, 0x10],
    [0xF0, 0x80, 0xF0, 0x10, 0xF0],
    [0xF0, 0x80, 0xF0, 0x90, 0xF0],
    [0xF0, 0x10, 0x20, 0x40, 0x40],
    [0xF0, 0x90, 0xF0, 0x90, 0xF0],
    [0xF0, 0x90, 0xF0, 0x10, 0xF0],
    [0xF0, 0x90, 0xF0, 0x90, 0x90],
    [0xE0, 0x90, 0xE0, 0x90, 0xE0],
    [0xF0, 0x80, 0x80, 0x80, 0xF0],
    [0xE0, 0x90, 0x90, 0x90, 0xE0],
    [0xF0, 0x80, 0xF0, 0x80, 0xF0],
    [0xF0, 0x80, 0xF0, 0x80, 0x80],
];

/// The font as it lies in memory: the glyphs one after the other.
pub open spec fn font_table() -> Seq<u8> {
    Seq::new(
        (GLYPH_COUNT * GLYPH_SIZE) as nat,
        |i: int| CHARACTER_SPRITES@[i / (GLYPH_SIZE as int)]@[i % (GLYPH_SIZE as int)],
    )
}

/// Memory as it is before the first instruction runs: the font at the bottom,
/// the program from `PROGRAM_START` on, zero everywhere else.
pub open spec fn initial_memory(program: Seq<u8>) -> Seq<u8> {
    Seq::new(
        MEMORY_SIZE as nat,
        |i: int|
            if i < font_table().len() {
                font_table()[i]
            } else if PROGRAM_START <= i < PROGRAM_START + program.len() {
                program[i - PROGRAM_START]
            } else {
                0u8
            },
    )
}

/// A pixel plane with every pixel off.
pub open spec fn blank_plane() -> Seq<bool> {
    Seq::new((WIDTH * HEIGHT) as nat, |i: int| false)
}

/// Whether the key with number `key` is down. A number that names no key is
/// never down.
pub open spec fn key_down(keys: Seq<bool>, key: u8) -> bool {
    key < keys.len() && keys[key as int]
}

/// The ways in which an instruction moves the instruction pointer.
#[derive(Debug, Clone, Copy, PartialEq, Eq, Structural)]
pub enum Advance {
    /// On to the following instruction.
    Normal,
    /// Past the following instruction.
    Skip,
    /// To the given address.
    Jump(u16),
    /// Nowhere: the same instruction runs again.
    Await,
}

/// The way a conditional skip moves the instruction pointer.
pub open spec fn skip_if(condition: bool) -> Advance {
    if condition {
        Advance::Skip
    } else {
        Advance::Normal
    }
}

/// Everything the processor holds.
#[verifier::ext_equal]
pub struct CpuState {
    /// The bytes of memory.
    pub memory: Seq<u8>,
    /// The general registers; the last one is the flag.
    pub registers: Seq<u8>,
    /// The address register.
    pub address_register: u16,
    /// Address of the instruction that runs next.
    pub instruction_pointer: u16,
    /// Return addresses of the outstanding calls, the innermost last.
    pub stack: Seq<u16>,
    /// The delay timer.
    pub delay_timer: u8,
    /// The sound timer.
    pub sound_timer: u8,
}

impl CpuState {
    /// Memory and register file have their fixed sizes.
    pub open spec fn well_formed(self) -> bool {
        &&& self.memory.len() == MEMORY_SIZE
        &&& self.registers.len() == REGISTER_COUNT
    }

    /// The processor as it is when `program` has just been loaded.
    pub open spec fn initial(program: Seq<u8>) -> CpuState {
        CpuState {
            memory: initial_memory(program),
            registers: Seq::new(REGISTER_COUNT as nat, |i: int| 0u8),
            address_register: 0,
            instruction_pointer: PROGRAM_START,
            stack: Seq::empty(),
            delay_timer: 0,
            sound_timer: 0,
        }
    }

    /// Value of the register with the given index.
    pub open spec fn register(self, index: u8) -> u8 {
        self.registers[index as int]
    }

    /// The same state with `value` in the register with the given index.
    pub open spec fn with_register(self, index: u8, value: u8) -> CpuState {
        CpuState { registers: self.registers.update(index as int, value), ..self }
    }

    /// The same state with the flag register holding 1 if `set`, else 0.
    pub open spec fn with_flag(self, set: bool) -> CpuState {
        self.with_register(FLAG_REGISTER, if set { 1u8 } else { 0u8 })
    }

    /// The same state with the address of the following instruction on top
    /// of the call stack.
    pub open spec fn called(self) -> CpuState {
        CpuState { stack: self.stack.push((self.instruction_pointer + 2) as u16), ..self }
    }

    /// The same state without the innermost return address.
    pub open spec fn returned(self) -> CpuState {
        CpuState { stack: self.stack.drop_last(), ..self }
    }

    /// The same state with the decimal digits of a register in the three
    /// bytes at the address register: hundreds, tens, ones.
    pub open spec fn with_decimal(self, register: u8) -> CpuState {
        let value = self.register(register);
        let at = self.address_register as int;
        CpuState {
            memory: self.memory.update(at, value / 100).update(at + 1, value / 10 % 10).update(
                at + 2,
                value % 10,
            ),
            ..self
        }
    }

    /// The same state with registers 0 up to and including `last` copied to
    /// memory, register 0 to the byte at the address register.
    pub open spec fn with_registers_stored(self, last: u8) -> CpuState {
        let at = self.address_register as int;
        CpuState {
            memory: Seq::new(
                self.memory.len(),
                |i: int|
                    if at <= i <= at + last {
                        self.registers[i - at]
                    } else {
                        self.memory[i]
                    },
            ),
            ..self
        }
    }

    /// The same state with registers 0 up to and including `last` copied
    /// from memory, register 0 from the byte at the address register.
    pub open spec fn with_registers_loaded(self, last: u8) -> CpuState {
        let at = self.address_register as int;
        CpuState {
            registers: Seq::new(
                self.registers.len(),
                |i: int|
                    if i <= last {
                        self.memory[at + i]
                    } else {
                        self.registers[i]
                    },
            ),
            ..self
        }
    }

    /// The same state with the instruction pointer moved as `advance` says.
    pub open spec fn moved(self, advance: Advance) -> CpuState {
        CpuState {
            instruction_pointer: match advance {
                Advance::Normal => (self.instruction_pointer + 2) as u16,
                Advance::Skip => (self.instruction_pointer + 4) as u16,
                Advance::Jump(target) => target,
                Advance::Await => self.instruction_pointer,
            },
            ..self
        }
    }

    /// Whether the two bytes of the instruction that runs next lie in memory.
    pub open spec fn instruction_in_memory(self) -> bool {
        self.instruction_pointer + 2 <= MEMORY_SIZE
    }

    /// The instruction word at the instruction pointer, high byte first.
    pub open spec fn fetched(self) -> Result<u16, Chip8Error> {
        if self.instruction_in_memory() {
            Ok(
                (self.memory[self.instruction_pointer as int] * 0x100 + self.memory[
                    self.instruction_pointer + 1
                ]) as u16,
            )
        } else {
            Err(Chip8Error::MemoryOutOfRange)
        }
    }

    /// The rows of the sprite that a draw instruction of the given height reads.
    pub open spec fn sprite(self, height: u8) -> Seq<u8> {
        self.memory.subrange(self.address_register as int, self.address_register + height)
    }

    /// The error with which `instruction` fails in this state, if it does.
    pub open spec fn fault(self, instruction: Instruction) -> Option<Chip8Error> {
        if !self.instruction_in_memory() {
            Some(Chip8Error::MemoryOutOfRange)
        } else {
            match instruction {
                Instruction::Return => if self.stack.len() == 0 {
                    Some(Chip8Error::StackUnderflow)
                } else {
                    None
                },
                Instruction::Subroutine { address } => if self.stack.len() >= STACK_LIMIT {
                    Some(Chip8Error::MemoryOutOfRange)
                } else {
                    None
                },
                Instruction::DrawSprite { x, y, height } => if self.address_register + height
                    > MEMORY_SIZE {
                    Some(Chip8Error::MemoryOutOfRange)
                } else {
                    None
                },
                Instruction::AddToI { register } => if self.address_register + self.register(
                    register,
                ) >= MEMORY_SIZE {
                    Some(Chip8Error::MemoryOutOfRange)
                } else {
                    None
                },
                Instruction::SetIToFontChar { register } => if self.register(register)
                    > GLYPH_LIMIT {
                    Some(Chip8Error::InvalidFontIndex)
                } else {
                    None
                },
                Instruction::BinaryCodedDecimal { register } => if self.address_register + 2
                    >= MEMORY_SIZE {
                    Some(Chip8Error::MemoryOutOfRange)
                } else {
                    None
                },
                Instruction::RegisterDump { register } => if self.address_register + register
                    >= MEMORY_SIZE {
                    Some(Chip8Error::MemoryOutOfRange)
                } else {
                    None
                },
                Instruction::RegisterLoad { register } => if self.address_register + register
                    >= MEMORY_SIZE {
                    Some(Chip8Error::MemoryOutOfRange)
                } else {
                    None
                },
                _ => None,
            }
        }
    }

    /// How `instruction` moves the instruction pointer, with `keys` on the
    /// keypad: exactly one of the four ways, the normal one unless the
    /// instruction asks for another.
    pub open spec fn advance(self, instruction: Instruction, keys: Seq<bool>) -> Advance {
        match instruction {
            Instruction::Return => Advance::Jump(self.stack.last()),
            Instruction::Jump { address } => Advance::Jump(address),
            Instruction::Subroutine { address } => Advance::Jump(address),
            Instruction::JumpOffset { address } => Advance::Jump(
                (address + self.register(0)) as u16,
            ),
            Instruction::IfEqualConst { register, value } => skip_if(
                self.register(register) == value,
            ),
            Instruction::IfNotEqualConst { register, value } => skip_if(
                self.register(register) != value,
            ),
            Instruction::IfEqualRegister { a, b } => skip_if(self.register(a) == self.register(b)),
            Instruction::IfNotEqualRegister { a, b } => skip_if(
                self.register(a) != self.register(b),
            ),
            Instruction::IfPressed { register } => skip_if(key_down(keys, self.register(register))),
            Instruction::IfNotPressed { register } => skip_if(
                !key_down(keys, self.register(register)),
            ),
            Instruction::AwaitInput { register } => if first_pressed(keys) is Some {
                Advance::Normal
            } else {
                Advance::Await
            },
            _ => Advance::Normal,
        }
    }

    /// What `instruction`, run without fault, makes of everything but the
    /// instruction pointer, with `plane` on the display, `keys` on the keypad
    /// and `random` the byte drawn by a random instruction.
    pub open spec fn effect(
        self,
        instruction: Instruction,
        plane: Seq<bool>,
        keys: Seq<bool>,
        random: u8,
    ) -> CpuState {
        match instruction {
            Instruction::Return => self.returned(),
            Instruction::Subroutine { address } => self.called(),
            Instruction::SetConst { register, value } => self.with_register(register, value),
            Instruction::AddConst { register, value } => self.with_register(
                register,
                ((self.register(register) + value) % 0x100) as u8,
            ),
            Instruction::SetRegister { dest, src } => self.with_register(dest, self.register(src)),
            Instruction::Or { a, b } => self.with_register(a, self.register(a) | self.register(b)),
            Instruction::And { a, b } => self.with_register(a, self.register(a) & self.register(b)),
            Instruction::Xor { a, b } => self.with_register(a, self.register(a) ^ self.register(b)),
            Instruction::Add { a, b } => {
                let sum = self.register(a) + self.register(b);
                self.with_register(a, (sum % 0x100) as u8).with_flag(sum > u8::MAX)
            },
            Instruction::Sub { a, b } => {
                let difference = self.register(a) - self.register(b);
                self.with_register(a, (difference % 0x100) as u8).with_flag(difference >= 0)
            },
            Instruction::ShiftRight { register } => {
                let flagged = self.with_flag(self.register(register) % 2 == 1);
                flagged.with_register(register, flagged.register(register) / 2)
            },
            Instruction::NegSub { a, b } => {
                let difference = self.register(b) - self.register(a);
                self.with_register(a, (difference % 0x100) as u8).with_flag(difference >= 0)
            },
            Instruction::ShiftLeft { register } => {
                let flagged = self.with_flag(self.register(register) >= 0x80);
                flagged.with_register(register, ((flagged.register(register) * 2) % 0x100) as u8)
            },
            Instruction::SetI { address } => CpuState { address_register: address, ..self },
            Instruction::Rand { register, value } => self.with_register(register, random & value),
            Instruction::DrawSprite { x, y, height } => self.with_flag(
                collides(plane, self.sprite(height), self.register(x), self.register(y)),
            ),
            Instruction::GetTimer { register } => self.with_register(register, self.delay_timer),
            Instruction::AwaitInput { register } => match first_pressed(keys) {
                Some(key) => self.with_register(register, key),
                None => self,
            },
            Instruction::SetTimer { register } => CpuState {
                delay_timer: self.register(register),
                ..self
            },
            Instruction::SetSound { register } => CpuState {
                sound_timer: self.register(register),
                ..self
            },
            Instruction::AddToI { register } => CpuState {
                address_register: (self.address_register + self.register(register)) as u16,
                ..self
            },
            Instruction::SetIToFontChar { register } => CpuState {
                address_register: (self.register(register) * GLYPH_SIZE) as u16,
                ..self
            },
            Instruction::BinaryCodedDecimal { register } => self.with_decimal(register),
            Instruction::RegisterDump { register } => self.with_registers_stored(register),
            Instruction::RegisterLoad { register } => self.with_registers_loaded(register),
            _ => self,
        }
    }

    /// The processor after `instruction` has run without fault: its effect,
    /// and the instruction pointer moved.
    pub open spec fn executed(
        self,
        instruction: Instruction,
        plane: Seq<bool>,
        keys: Seq<bool>,
        random: u8,
    ) -> CpuState {
        self.effect(instruction, plane, keys, random).moved(self.advance(instruction, keys))
    }

    /// The display after `instruction` has run without fault on `plane`.
    pub open spec fn screen(self, instruction: Instruction, plane: Seq<bool>) -> Seq<bool> {
        match instruction {
            Instruction::ClearScreen => blank_plane(),
            Instruction::DrawSprite { x, y, height } => drawn(
                plane,
                self.sprite(height),
                self.register(x),
                self.register(y),
            ),
            _ => plane,
        }
    }

    /// What executing `instruction` comes to: the error it fails with, or the
    /// processor and the display after it.
    pub open spec fn run(
        self,
        instruction: Instruction,
        plane: Seq<bool>,
        keys: Seq<bool>,
        random: u8,
    ) -> Result<(CpuState, Seq<bool>), Chip8Error> {
        match self.fault(instruction) {
            Some(error) => Err(error),
            None => Ok(
                (self.executed(instruction, plane, keys, random), self.screen(instruction, plane)),
            ),
        }
    }

    /// What one cycle comes to: fetch the instruction word at the instruction
    /// pointer, decode it, execute it.
    pub open spec fn cycled(self, plane: Seq<bool>, keys: Seq<bool>, random: u8) -> Result<
        (CpuState, Seq<bool>),
        Chip8Error,
    > {
        match self.fetched() {
            Err(error) => Err(error),
            Ok(word) => match Instruction::decode(word) {
                Err(error) => Err(error),
                Ok(instruction) => self.run(instruction, plane, keys, random),
            },
        }
    }

    /// Whether the next cycle executes a random instruction, so that its
    /// outcome depends on the byte drawn.
    pub open spec fn rolls(self) -> bool {
        self.fetched() matches Ok(word) && Instruction::decode(word) matches Ok(
            Instruction::Rand { .. },
        )
    }

    /// The processor after one timer tick: both timers one lower, but not
    /// below zero.
    pub open spec fn ticked(self) -> CpuState {
        CpuState {
            delay_timer: if self.delay_timer > 0 {
                (self.delay_timer - 1) as u8
            } else {
                0
            },
            sound_timer: if self.sound_timer > 0 {
                (self.sound_timer - 1) as u8
            } else {
                0
            },
            ..self
        }
    }

    /// Whether the tone sounds: the sound timer has not run out.
    pub open spec fn tone(self) -> bool {
        self.sound_timer > 0
    }
}

/// Whether a fallible operation that started from `before` and `plane` and
/// came to `outcome` has returned `result` and left `after` and `shown`
/// behind: on success what the outcome holds, on failure the error, with
/// processor and display as they were.
pub open spec fn accords(
    outcome: Result<(CpuState, Seq<bool>), Chip8Error>,
    before: CpuState,
    plane: Seq<bool>,
    result: Result<(), Chip8Error>,
    after: CpuState,
    shown: Seq<bool>,
) -> bool {
    match outcome {
        Ok((state, screen)) => result == Ok::<(), Chip8Error>(()) && after == state && shown == screen,
        Err(error) => result == Err::<(), Chip8Error>(error) && after == before && shown == plane,
    }
}

} // verus!
