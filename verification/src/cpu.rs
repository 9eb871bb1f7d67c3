//! The processor: memory, registers, call stack and timers, and the execution
//! of instructions on them.

use vstd::prelude::*;
use rand::Rng;
use crate::display::{Display, HEIGHT, WIDTH};
use crate::error::Chip8Error;
use crate::input::{Input, KEY_COUNT};
use crate::instruction::Instruction;
use crate::sprite::{
    collides, collides_within, drawn, drawn_within, lemma_draw_cell, lemma_draw_everything,
    lemma_draw_nothing, row_bit, SPRITE_WIDTH,
};
use crate::state::{
    accords, font_table, initial_memory, Advance, CpuState, CHARACTER_SPRITES, FLAG_REGISTER,
    GLYPH_LIMIT, GLYPH_SIZE, MEMORY_SIZE, PROGRAM_START, REGISTER_COUNT, STACK_LIMIT,
};

verus! {

/// A byte from the thread's random number generator.
///
/// Calls `rand::thread_rng` and draws one `u8` from it with `Rng::gen`. The
/// generator is seeded by the operating system, so nothing is claimed of the
/// byte: every value may come back. Where the operating system has no seed
/// to give, `thread_rng` panics; nothing here can rule that out.
#[verifier::external_body]
fn random_byte() -> (byte: u8) {
    rand::thread_rng().gen::<u8>()
}

/// The mask for a column of a sprite row selects the bit that `row_bit` names.
proof fn lemma_mask_bit(byte: u8, column: u8)
    by (bit_vector)
    requires
        column < 8,
    ensures
        ((0x80u8 >> column) & byte != 0) == ((byte >> ((7 - column) as u8)) & 1 == 1),
{
}

/// The lowest bit of a byte is its remainder by two.
proof fn lemma_low_bit(byte: u8)
    by (bit_vector)
    ensures
        byte & 1 == byte % 2,
{
}

/// Shifting a byte right by one bit halves it.
proof fn lemma_halve(byte: u8)
    by (bit_vector)
    ensures
        byte >> 1u8 == byte / 2,
{
}

/// The highest bit of a byte tells whether it is at least 128.
proof fn lemma_high_bit(byte: u8)
    by (bit_vector)
    ensures
        byte >> 7u8 == byte / 0x80,
{
}

/// Shifting a byte left by one bit doubles it within eight bits.
proof fn lemma_double(byte: u8)
    by (bit_vector)
    ensures
        (byte << 1u8) as int == (byte * 2) % 0x100,
{
}

/// Two processor states with the same contents are the same state.
proof fn lemma_same_state(left: CpuState, right: CpuState)
    requires
        left.memory =~= right.memory,
        left.registers =~= right.registers,
        left.address_register == right.address_register,
        left.instruction_pointer == right.instruction_pointer,
        left.stack =~= right.stack,
        left.delay_timer == right.delay_timer,
        left.sound_timer == right.sound_timer,
    ensures
        left == right,
{
}

/// The processor.
pub struct CPU {
    memory: [u8; 4096],
    registers: [u8; 16],
    address_register: u16,
    instruction_pointer: u16,
    stack: Vec<u16>,
    delay_timer: u8,
    sound_timer: u8,
}

impl View for CPU {
    type V = CpuState;

    closed spec fn view(&self) -> CpuState {
        CpuState {
            memory: self.memory@,
            registers: self.registers@,
            address_register: self.address_register,
            instruction_pointer: self.instruction_pointer,
            stack: self.stack@,
            delay_timer: self.delay_timer,
            sound_timer: self.sound_timer,
        }
    }
}

impl CPU {
    /// Memory and register file of a processor always have their fixed sizes.
    pub proof fn lemma_well_formed(&self)
        ensures
            self@.well_formed(),
    {
    }

    /// A processor with `program` loaded, about to run its first instruction.
    pub fn new(program: &[u8]) -> (cpu: Self)
        requires
            program@.len() <= MEMORY_SIZE - PROGRAM_START,
        ensures
            cpu@ == CpuState::initial(program@),
    {
        let mut memory = [0u8;4096];
        let mut glyph: usize = 0;
        while glyph < 16
            invariant
                glyph <= 16,
                forall|i: int| 0 <= i < glyph * 5 ==> memory@[i] == font_table()[i],
                forall|i: int| glyph * 5 <= i < MEMORY_SIZE ==> memory@[i] == 0,
            decreases 16 - glyph,
        {
            let mut row: usize = 0;
            while row < 5
                invariant
                    glyph < 16,
                    row <= 5,
                    forall|i: int|
                        0 <= i < glyph * 5 + row ==> memory@[i] == font_table()[i],
                    forall|i: int| glyph * 5 + row <= i < MEMORY_SIZE ==> memory@[i] == 0,
                decreases 5 - row,
            {
                memory[glyph * 5 + row] = CHARACTER_SPRITES[glyph][row];
                row += 1;
            }
            glyph += 1;
        }
        let mut offset: usize = 0;
        while offset < program.len()
            invariant
                offset <= program@.len() <= MEMORY_SIZE - PROGRAM_START,
                forall|i: int| 0 <= i < 80 ==> memory@[i] == font_table()[i],
                forall|i: int| 80 <= i < PROGRAM_START ==> memory@[i] == 0,
                forall|i: int|
                    PROGRAM_START <= i < PROGRAM_START + offset ==> memory@[i] == program@[i
                        - PROGRAM_START],
                forall|i: int| PROGRAM_START + offset <= i < MEMORY_SIZE ==> memory@[i] == 0,
            decreases program@.len() - offset,
        {
            memory[0x200 + offset] = program[offset];
            offset += 1;
        }
        let cpu = Self {
            memory,
            registers: [0u8;16],
            address_register: 0,
            instruction_pointer: PROGRAM_START,
            stack: Vec::with_capacity(STACK_LIMIT),
            delay_timer: 0,
            sound_timer: 0,
        };
        assert(cpu@.memory =~= initial_memory(program@));
        assert(cpu@.registers =~= CpuState::initial(program@).registers);
        assert(cpu@.stack =~= CpuState::initial(program@).stack);
        cpu
    }

    /// Reads the instruction word at the instruction pointer, high byte first.
    pub fn fetch(&self) -> (word: Result<u16, Chip8Error>)
        ensures
            word == self@.fetched(),
    {
        if self.instruction_pointer as usize + 2 > MEMORY_SIZE {
            return Err(Chip8Error::MemoryOutOfRange);
        }
        let at = self.instruction_pointer as usize;
        let high = self.memory[at] as u16;
        let low = self.memory[at + 1] as u16;
        Ok(high * 0x100 + low)
    }

    /// Draws the sprite of `height` rows that lies at the address register to
    /// `(x, y)` and tells whether a pixel went off.
    fn draw_sprite(&self, display: &mut Display, x: u8, y: u8, height: u8) -> (collision:
        bool)
        requires
            self@.address_register + height <= MEMORY_SIZE,
            height < 16,
        ensures
            final(display)@ == drawn(old(display)@, self@.sprite(height), x, y),
            collision == collides(old(display)@, self@.sprite(height), x, y),
    {
        let ghost plane = display@;
        let ghost sprite = self@.sprite(height);
        proof {
            display.lemma_view_len();
            lemma_draw_nothing(plane, sprite, x, y);
        }
        let start = self.address_register as usize;
        let mut collision = false;
        let mut row: u8 = 0;
        while row < height
            invariant
                row <= height < 16,
                start == self@.address_register,
                start + height <= MEMORY_SIZE,
                plane.len() == WIDTH * HEIGHT,
                sprite == self@.sprite(height),
                display@ == drawn_within(plane, sprite, x, y, row * SPRITE_WIDTH),
                collision == collides_within(plane, sprite, x, y, row * SPRITE_WIDTH),
            decreases height - row,
        {
            let byte = self.memory[start + row as usize];
            let at_y = ((y as u16 + row as u16) % 32) as u8;
            let mut column: u8 = 0;
            while column < 8
                invariant
                    row < height < 16,
                    column <= 8,
                    plane.len() == WIDTH * HEIGHT,
                    sprite.len() == height,
                    byte == sprite[row as int],
                    at_y == (y + row) % (HEIGHT as int),
                    display@ == drawn_within(
                        plane,
                        sprite,
                        x,
                        y,
                        row * SPRITE_WIDTH + column,
                    ),
                    collision == collides_within(
                        plane,
                        sprite,
                        x,
                        y,
                        row * SPRITE_WIDTH + column,
                    ),
                decreases 8 - column,
            {
                let at_x = ((x as u16 + column as u16) % 64) as u8;
                let value = (0x80u8 >> column) & byte != 0;
                proof {
                    lemma_mask_bit(byte, column);
                    lemma_draw_cell(plane, sprite, x, y, row as int, column as int);
                    assert(value == row_bit(byte, column as int));
                    assert(at_x == (x + column) % (WIDTH as int));
                }
                let previous = display.get_pixel(at_x, at_y);
                if value && previous {
                    collision = true;
                }
                display.set_pixel(at_x, at_y, value ^ previous);
                column += 1;
            }
            row += 1;
        }
        proof {
            lemma_draw_everything(plane, sprite, x, y);
        }
        collision
    }

    /// Copies registers 0 up to and including `last` to memory, starting at
    /// the address register.
    fn dump_registers(&mut self, last: u8)
        requires
            last < REGISTER_COUNT,
            old(self)@.address_register + last < MEMORY_SIZE,
        ensures
            final(self)@ == old(self)@.with_registers_stored(last),
    {
        let start = self.address_register as usize;
        let mut i: usize = 0;
        while i <= last as usize
            invariant
                i <= last + 1,
                last < REGISTER_COUNT,
                start == old(self)@.address_register,
                start + last < MEMORY_SIZE,
                self.registers == old(self).registers,
                self.address_register == old(self).address_register,
                self.instruction_pointer == old(self).instruction_pointer,
                self.stack == old(self).stack,
                self.delay_timer == old(self).delay_timer,
                self.sound_timer == old(self).sound_timer,
                forall|k: int|
                    0 <= k < MEMORY_SIZE ==> self.memory@[k] == if start <= k < start + i {
                        old(self).registers@[k - start]
                    } else {
                        old(self).memory@[k]
                    },
            decreases last + 1 - i,
        {
            self.memory[start + i] = self.registers[i];
            i += 1;
        }
        assert(self@.memory =~= old(self)@.with_registers_stored(last).memory);
    }

    /// Copies memory, starting at the address register, to registers 0 up to
    /// and including `last`.
    fn load_registers(&mut self, last: u8)
        requires
            last < REGISTER_COUNT,
            old(self)@.address_register + last < MEMORY_SIZE,
        ensures
            final(self)@ == old(self)@.with_registers_loaded(last),
    {
        let start = self.address_register as usize;
        let mut i: usize = 0;
        while i <= last as usize
            invariant
                i <= last + 1,
                last < REGISTER_COUNT,
                start == old(self)@.address_register,
                start + last < MEMORY_SIZE,
                self.memory == old(self).memory,
                self.address_register == old(self).address_register,
                self.instruction_pointer == old(self).instruction_pointer,
                self.stack == old(self).stack,
                self.delay_timer == old(self).delay_timer,
                self.sound_timer == old(self).sound_timer,
                forall|k: int|
                    0 <= k < REGISTER_COUNT ==> self.registers@[k] == if k < i {
                        old(self).memory@[start + k]
                    } else {
                        old(self).registers@[k]
                    },
            decreases last + 1 - i,
        {
            self.registers[i] = self.memory[start + i];
            i += 1;
        }
        assert(self@.registers =~= old(self)@.with_registers_loaded(last).registers);
    }

    /// Value of the register with the given index.
    pub fn register(&self, index: u8) -> (value: u8)
        requires
            index < REGISTER_COUNT,
        ensures
            value == self@.register(index),
    {
        self.registers[index as usize]
    }

    /// The address register.
    pub fn address_register(&self) -> (value: u16)
        ensures
            value == self@.address_register,
    {
        self.address_register
    }

    /// Address of the instruction that runs next.
    pub fn instruction_pointer(&self) -> (value: u16)
        ensures
            value == self@.instruction_pointer,
    {
        self.instruction_pointer
    }

    /// The delay timer.
    pub fn delay_timer(&self) -> (value: u8)
        ensures
            value == self@.delay_timer,
    {
        self.delay_timer
    }

    /// The sound timer.
    pub fn sound_timer(&self) -> (value: u8)
        ensures
            value == self@.sound_timer,
    {
        self.sound_timer
    }

    /// The byte of memory at `address`.
    pub fn memory_at(&self, address: u16) -> (value: u8)
        requires
            address < MEMORY_SIZE,
        ensures
            value == self@.memory[address as int],
    {
        self.memory[address as usize]
    }

    /// Number of calls that are outstanding.
    pub fn stack_depth(&self) -> (depth: usize)
        ensures
            depth == self@.stack.len(),
    {
        self.stack.len()
    }

    /// Stores `value` in the register with the given index.
    fn set_register(&mut self, index: u8, value: u8)
        requires
            index < REGISTER_COUNT,
        ensures
            final(self)@ == old(self)@.with_register(index, value),
    {
        self.registers[index as usize] = value;
    }

    /// Sets the flag register to 1 if `set`, else to 0.
    fn set_flag(&mut self, set: bool)
        ensures
            final(self)@ == old(self)@.with_flag(set),
    {
        self.registers[FLAG_REGISTER as usize] = if set {
            1
        } else {
            0
        };
    }

    /// Takes the innermost return address off the call stack, if there is one.
    fn pop_return(&mut self) -> (address: Option<u16>)
        ensures
            match address {
                Some(address) => {
                    &&& old(self)@.stack.len() > 0
                    &&& address == old(self)@.stack.last()
                    &&& final(self)@ == old(self)@.returned()
                },
                None => old(self)@.stack.len() == 0 && final(self)@ == old(self)@,
            },
    {
        let address = self.stack.pop();
        proof {
            if address is Some {
                lemma_same_state(self@, old(self)@.returned());
            }
        }
        address
    }

    /// Puts the address of the following instruction on the call stack.
    fn push_return(&mut self)
        requires
            old(self)@.instruction_in_memory(),
        ensures
            final(self)@ == old(self)@.called(),
    {
        self.stack.push(self.instruction_pointer + 2);
    }

    /// Writes the three decimal digits of a register to memory, starting at
    /// the address register with the hundreds.
    fn store_decimal(&mut self, register: u8)
        requires
            register < REGISTER_COUNT,
            old(self)@.address_register + 2 < MEMORY_SIZE,
        ensures
            final(self)@ == old(self)@.with_decimal(register),
    {
        let val = self.registers[register as usize];
        let i = self.address_register as usize;
        self.memory[i] = val / 100;
        self.memory[i + 1] = val % 100 / 10;
        self.memory[i + 2] = val % 10;
        proof {
            lemma_same_state(self@, old(self)@.with_decimal(register));
        }
    }

    /// Moves the instruction pointer as `advance` says.
    fn move_pointer(&mut self, advance: Advance)
        requires
            old(self)@.instruction_in_memory(),
        ensures
            final(self)@ == old(self)@.moved(advance),
    {
        match advance {
            Advance::Normal => {
                self.instruction_pointer += 2;
            },
            Advance::Skip => {
                self.instruction_pointer += 4;
            },
            Advance::Jump(target) => {
                self.instruction_pointer = target;
            },
            Advance::Await => {},
        }
    }

    /// Executes one instruction, with `random` as the byte that a random
    /// instruction draws.
    ///
    /// The instruction is taken to be the one at the instruction pointer: it
    /// fails with `MemoryOutOfRange` where that position is not in memory.
    /// A failing instruction changes nothing.
    #[verifier::rlimit(30)]
    pub fn execute_instruction(
        &mut self,
        instruction: Instruction,
        display: &mut Display,
        input: &Input,
        random: u8,
    ) -> (result: Result<(), Chip8Error>)
        requires
            instruction.well_formed(),
        ensures
            accords(
                old(self)@.run(instruction, old(display)@, input@, random),
                old(self)@,
                old(display)@,
                result,
                final(self)@,
                final(display)@,
            ),
    {
        if self.instruction_pointer as usize + 2 > MEMORY_SIZE {
            return Err(Chip8Error::MemoryOutOfRange);
        }
        let ghost before = self@;
        let ghost after = before.effect(instruction, display@, input@, random);
        proof {
            input.lemma_view_len();
        }
        let mut advance = Advance::Normal;
        match instruction {
            Instruction::RCA1802 { .. } => {},
            Instruction::ClearScreen => {
                display.clear();
            },
            Instruction::Return => {
                match self.pop_return() {
                    Some(address) => {
                        advance = Advance::Jump(address);
                    },
                    None => {
                        return Err(Chip8Error::StackUnderflow);
                    },
                }
            },
            Instruction::Jump { address } => {
                advance = Advance::Jump(address);
            },
            Instruction::Subroutine { address } => {
                if self.stack.len() >= STACK_LIMIT {
                    return Err(Chip8Error::MemoryOutOfRange);
                }
                self.push_return();
                advance = Advance::Jump(address);
            },
            Instruction::IfEqualConst { register, value } => {
                if self.register(register) == value {
                    advance = Advance::Skip;
                }
            },
            Instruction::IfNotEqualConst { register, value } => {
                if self.register(register) != value {
                    advance = Advance::Skip;
                }
            },
            Instruction::IfEqualRegister { a, b } => {
                if self.register(a) == self.register(b) {
                    advance = Advance::Skip;
                }
            },
            Instruction::SetConst { register, value } => {
                self.set_register(register, value);
            },
            Instruction::AddConst { register, value } => {
                let sum = self.register(register).wrapping_add(value);
                self.set_register(register, sum);
            },
            Instruction::SetRegister { dest, src } => {
                let value = self.register(src);
                self.set_register(dest, value);
            },
            Instruction::Or { a, b } => {
                let value = self.register(a) | self.register(b);
                self.set_register(a, value);
            },
            Instruction::And { a, b } => {
                let value = self.register(a) & self.register(b);
                self.set_register(a, value);
            },
            Instruction::Xor { a, b } => {
                let value = self.register(a) ^ self.register(b);
                self.set_register(a, value);
            },
            Instruction::Add { a, b } => {
                let a_val = self.register(a);
                let b_val = self.register(b);
                let overflow = a_val > u8::MAX - b_val;
                self.set_register(a, a_val.wrapping_add(b_val));
                self.set_flag(overflow);
            },
            Instruction::Sub { a, b } => {
                let a_val = self.register(a);
                let b_val = self.register(b);
                let overflow = a_val < b_val;
                self.set_register(a, a_val.wrapping_sub(b_val));
                self.set_flag(!overflow);
            },
            Instruction::ShiftRight { register } => {
                let val = self.register(register);
                self.set_flag(val & 1 == 1);
                let flagged = self.register(register);
                self.set_register(register, flagged >> 1u8);
                proof {
                    lemma_low_bit(val);
                    lemma_halve(flagged);
                }
            },
            Instruction::NegSub { a, b } => {
                let a_val = self.register(a);
                let b_val = self.register(b);
                let overflow = b_val < a_val;
                self.set_register(a, b_val.wrapping_sub(a_val));
                self.set_flag(!overflow);
            },
            Instruction::ShiftLeft { register } => {
                let val = self.register(register);
                self.set_flag(val >> 7u8 == 1);
                let flagged = self.register(register);
                self.set_register(register, flagged << 1u8);
                proof {
                    lemma_high_bit(val);
                    lemma_double(flagged);
                }
            },
            Instruction::IfNotEqualRegister { a, b } => {
                if self.register(a) != self.register(b) {
                    advance = Advance::Skip;
                }
            },
            Instruction::SetI { address } => {
                self.address_register = address;
            },
            Instruction::JumpOffset { address } => {
                advance = Advance::Jump(address + self.register(0) as u16);
            },
            Instruction::Rand { register, value } => {
                self.set_register(register, random & value);
            },
            Instruction::DrawSprite { x, y, height } => {
                if self.address_register as usize + height as usize > MEMORY_SIZE {
                    return Err(Chip8Error::MemoryOutOfRange);
                }
                let start_x = self.register(x);
                let start_y = self.register(y);
                let collision = self.draw_sprite(display, start_x, start_y, height);
                self.set_flag(collision);
            },
            Instruction::IfPressed { register } => {
                let key = self.register(register);
                if (key as usize) < KEY_COUNT && input.is_key_pressed(key) {
                    advance = Advance::Skip;
                }
            },
            Instruction::IfNotPressed { register } => {
                let key = self.register(register);
                if !((key as usize) < KEY_COUNT && input.is_key_pressed(key)) {
                    advance = Advance::Skip;
                }
            },
            Instruction::GetTimer { register } => {
                let value = self.delay_timer;
                self.set_register(register, value);
            },
            Instruction::AwaitInput { register } => {
                advance = Advance::Await;
                if let Some(key) = input.get_pressed_key() {
                    self.set_register(register, key);
                    advance = Advance::Normal;
                }
            },
            Instruction::SetTimer { register } => {
                self.delay_timer = self.register(register);
            },
            Instruction::SetSound { register } => {
                self.sound_timer = self.register(register);
            },
            Instruction::AddToI { register } => {
                let val = self.register(register);
                if self.address_register as usize + val as usize >= MEMORY_SIZE {
                    return Err(Chip8Error::MemoryOutOfRange);
                }
                self.address_register = self.address_register + val as u16;
            },
            Instruction::SetIToFontChar { register } => {
                let val = self.register(register);
                if val > GLYPH_LIMIT {
                    return Err(Chip8Error::InvalidFontIndex);
                }
                self.address_register = val as u16 * GLYPH_SIZE;
            },
            Instruction::BinaryCodedDecimal { register } => {
                if self.address_register as usize + 2 >= MEMORY_SIZE {
                    return Err(Chip8Error::MemoryOutOfRange);
                }
                self.store_decimal(register);
            },
            Instruction::RegisterDump { register } => {
                if self.address_register as usize + register as usize >= MEMORY_SIZE {
                    return Err(Chip8Error::MemoryOutOfRange);
                }
                self.dump_registers(register);
            },
            Instruction::RegisterLoad { register } => {
                if self.address_register as usize + register as usize >= MEMORY_SIZE {
                    return Err(Chip8Error::MemoryOutOfRange);
                }
                self.load_registers(register);
            },
        };
        assert(self@ == after);
        assert(advance == before.advance(instruction, input@));
        self.move_pointer(advance);
        Ok(())
    }

    /// Runs one cycle with `random` as the byte that a random instruction
    /// draws: fetches the instruction word at the instruction pointer, decodes
    /// it and executes it. A failing cycle changes nothing.
    pub fn cycle_with(&mut self, display: &mut Display, input: &Input, random: u8) -> (result:
        Result<(), Chip8Error>)
        ensures
            accords(
                old(self)@.cycled(old(display)@, input@, random),
                old(self)@,
                old(display)@,
                result,
                final(self)@,
                final(display)@,
            ),
    {
        let opcode = match self.fetch() {
            Ok(opcode) => opcode,
            Err(error) => {
                return Err(error);
            },
        };
        let instruction = match Instruction::from_opcode(opcode) {
            Ok(instruction) => instruction,
            Err(error) => {
                return Err(error);
            },
        };
        self.execute_instruction(instruction, display, input, random)
    }

    /// Runs one cycle: fetches the instruction word at the instruction
    /// pointer, decodes it and executes it. A failing cycle changes nothing.
    ///
    /// A random instruction draws its byte from the thread's generator, so
    /// its outcome is that of `cycle_with` for some byte; every other
    /// instruction comes out as under `cycle_with`, whatever the byte.
    pub fn cycle(&mut self, display: &mut Display, input: &Input) -> (result: Result<
        (),
        Chip8Error,
    >)
        ensures
            exists|random: u8|
                accords(
                    #[trigger] old(self)@.cycled(old(display)@, input@, random),
                    old(self)@,
                    old(display)@,
                    result,
                    final(self)@,
                    final(display)@,
                ),
            !old(self)@.rolls() ==> forall|random: u8|
                accords(
                    #[trigger] old(self)@.cycled(old(display)@, input@, random),
                    old(self)@,
                    old(display)@,
                    result,
                    final(self)@,
                    final(display)@,
                ),
    {
        let opcode = match self.fetch() {
            Ok(opcode) => opcode,
            Err(error) => {
                assert(old(self)@.cycled(old(display)@, input@, 0) == Err::<
                    (CpuState, Seq<bool>),
                    Chip8Error,
                >(error));
                return Err(error);
            },
        };
        let instruction = match Instruction::from_opcode(opcode) {
            Ok(instruction) => instruction,
            Err(error) => {
                assert(old(self)@.cycled(old(display)@, input@, 0) == Err::<
                    (CpuState, Seq<bool>),
                    Chip8Error,
                >(error));
                return Err(error);
            },
        };
        let random = match instruction {
            Instruction::Rand { .. } => random_byte(),
            _ => 0,
        };
        let result = self.execute_instruction(instruction, display, input, random);
        proof {
            let before = old(self)@;
            let plane = old(display)@;
            assert(before.cycled(plane, input@, random) == before.run(
                instruction,
                plane,
                input@,
                random,
            ));
            if !before.rolls() {
                assert forall|other: u8|
                    #[trigger] before.cycled(plane, input@, other) == before.cycled(
                        plane,
                        input@,
                        random,
                    ) by {
                    assert(before.executed(instruction, plane, input@, other)
                        == before.executed(instruction, plane, input@, random));
                }
            }
        }
        result
    }

    /// Counts both timers down by one, stopping at zero.
    pub fn tick(&mut self)
        ensures
            final(self)@ == old(self)@.ticked(),
    {
        self.delay_timer = self.delay_timer.saturating_sub(1);
        self.sound_timer = self.sound_timer.saturating_sub(1);
    }

    /// Whether the tone is to sound.
    pub fn should_play_sound(&self) -> (sounding: bool)
        ensures
            sounding == self@.tone(),
    {
        self.sound_timer > 0
    }
}

} // verus!
