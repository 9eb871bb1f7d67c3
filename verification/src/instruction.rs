//! The instruction set and its decoder.
//!
//! An instruction word has sixteen bits. Its highest hexadecimal digit selects
//! the family; the remaining three digits are read, depending on the family,
//! as one twelve bit address, as a register index and an eight bit constant,
//! or as up to three register indices or small numbers.

use vstd::prelude::*;
use crate::error::Chip8Error;

verus! {

/// The operand fields of an instruction word, all of them extracted at once.
#[derive(Debug, Clone, Copy, PartialEq, Eq, Structural)]
pub struct Opcode {
    /// Highest digit: the instruction family.
    pub control: u8,
    /// Lowest three digits.
    pub address: u16,
    /// Lowest two digits.
    pub constant: u8,
    /// Second highest digit.
    pub a: u8,
    /// Second lowest digit.
    pub b: u8,
    /// Lowest digit.
    pub c: u8,
}

impl Opcode {
    /// The fields of `word`, stated by division and remainder.
    pub open spec fn fields(word: u16) -> Opcode {
        Opcode {
            control: (word / 0x1000) as u8,
            address: word % 0x1000,
            constant: (word % 0x100) as u8,
            a: (word / 0x100 % 0x10) as u8,
            b: (word / 0x10 % 0x10) as u8,
            c: (word % 0x10) as u8,
        }
    }

    /// Splits an instruction word into its fields.
    pub fn new(opcode: u16) -> (fields: Self)
        ensures
            fields == Self::fields(opcode),
            fields.control < 16,
            fields.address < 0x1000,
            fields.a < 16,
            fields.b < 16,
            fields.c < 16,
    {
        assert({
            &&& (opcode & 0xF000) >> 12 == opcode / 0x1000
            &&& opcode & 0x0FFF == opcode % 0x1000
            &&& opcode & 0x00FF == opcode % 0x100
            &&& (opcode & 0x0F00) >> 8 == opcode / 0x100 % 0x10
            &&& (opcode & 0x00F0) >> 4 == opcode / 0x10 % 0x10
            &&& opcode & 0x000F == opcode % 0x10
        }) by (bit_vector);
        Self {
            control: ((opcode & 0xF000) >> 12) as u8,
            address: opcode & 0x0FFF,
            constant: (opcode & 0x00FF) as u8,
            a: ((opcode & 0x0F00) >> 8) as u8,
            b: ((opcode & 0x00F0) >> 4) as u8,
            c: (opcode & 0x000F) as u8,
        }
    }
}

/// One instruction, carrying only the operands it uses.
///
/// A `register`, `a`, `b`, `x`, `y`, `dest` or `src` field is the index of a
/// general register; an `address` is a twelve bit memory address.
#[derive(Debug, Clone, Copy, PartialEq, Eq, Structural)]
pub enum Instruction {
    /// `0NNN`: call of a native routine; executed as a no-op.
    RCA1802 { address: u16 },
    /// `00E0`: turn every pixel off.
    ClearScreen,
    /// `00EE`: return from a subroutine.
    Return,
    /// `1NNN`: jump to `address`.
    Jump { address: u16 },
    /// `2NNN`: call the subroutine at `address`.
    Subroutine { address: u16 },
    /// `3XNN`: skip the next instruction if the register equals `value`.
    IfEqualConst { register: u8, value: u8 },
    /// `4XNN`: skip the next instruction if the register differs from `value`.
    IfNotEqualConst { register: u8, value: u8 },
    /// `5XY0`: skip the next instruction if the two registers are equal.
    IfEqualRegister { a: u8, b: u8 },
    /// `6XNN`: load `value` into the register.
    SetConst { register: u8, value: u8 },
    /// `7XNN`: add `value` to the register, without touching the flag.
    AddConst { register: u8, value: u8 },
    /// `8XY0`: copy `src` into `dest`.
    SetRegister { dest: u8, src: u8 },
    /// `8XY1`: bitwise or of `a` and `b` into `a`.
    Or { a: u8, b: u8 },
    /// `8XY2`: bitwise and of `a` and `b` into `a`.
    And { a: u8, b: u8 },
    /// `8XY3`: bitwise exclusive or of `a` and `b` into `a`.
    Xor { a: u8, b: u8 },
    /// `8XY4`: add `b` to `a`; the flag reports the carry.
    Add { a: u8, b: u8 },
    /// `8XY5`: subtract `b` from `a`; the flag reports that nothing was borrowed.
    Sub { a: u8, b: u8 },
    /// `8XY6`: shift the register right by one bit; the flag takes the bit shifted out.
    ShiftRight { register: u8 },
    /// `8XY7`: store `b` minus `a` into `a`; the flag reports that nothing was borrowed.
    NegSub { a: u8, b: u8 },
    /// `8XYE`: shift the register left by one bit; the flag takes the bit shifted out.
    ShiftLeft { register: u8 },
    /// `9XY0`: skip the next instruction if the two registers differ.
    IfNotEqualRegister { a: u8, b: u8 },
    /// `ANNN`: load `address` into the address register.
    SetI { address: u16 },
    /// `BNNN`: jump to `address` plus the value of register 0.
    JumpOffset { address: u16 },
    /// `CXNN`: load a random byte, masked with `value`, into the register.
    Rand { register: u8, value: u8 },
    /// `DXYN`: draw the sprite of `height` rows at the address register to the
    /// position held in registers `x` and `y`.
    DrawSprite { x: u8, y: u8, height: u8 },
    /// `EX9E`: skip the next instruction if the key named by the register is down.
    IfPressed { register: u8 },
    /// `EXA1`: skip the next instruction if the key named by the register is up.
    IfNotPressed { register: u8 },
    /// `FX07`: copy the delay timer into the register.
    GetTimer { register: u8 },
    /// `FX0A`: wait for a key and store it in the register.
    AwaitInput { register: u8 },
    /// `FX15`: copy the register into the delay timer.
    SetTimer { register: u8 },
    /// `FX18`: copy the register into the sound timer.
    SetSound { register: u8 },
    /// `FX1E`: add the register to the address register.
    AddToI { register: u8 },
    /// `FX29`: point the address register at the glyph for the register's value.
    SetIToFontChar { register: u8 },
    /// `FX33`: store the register's three decimal digits at the address register.
    BinaryCodedDecimal { register: u8 },
    /// `FX55`: store registers 0 up to and including `register` at the address register.
    RegisterDump { register: u8 },
    /// `FX65`: load registers 0 up to and including `register` from the address register.
    RegisterLoad { register: u8 },
}

impl Instruction {
    /// Every operand fits the field of the instruction word that it comes from:
    /// a register index and a sprite height in four bits, an address in twelve.
    pub open spec fn well_formed(self) -> bool {
        match self {
            Instruction::RCA1802 { address } => address < 0x1000,
            Instruction::ClearScreen => true,
            Instruction::Return => true,
            Instruction::Jump { address } => address < 0x1000,
            Instruction::Subroutine { address } => address < 0x1000,
            Instruction::IfEqualConst { register, value } => register < 16,
            Instruction::IfNotEqualConst { register, value } => register < 16,
            Instruction::IfEqualRegister { a, b } => a < 16 && b < 16,
            Instruction::SetConst { register, value } => register < 16,
            Instruction::AddConst { register, value } => register < 16,
            Instruction::SetRegister { dest, src } => dest < 16 && src < 16,
            Instruction::Or { a, b } => a < 16 && b < 16,
            Instruction::And { a, b } => a < 16 && b < 16,
            Instruction::Xor { a, b } => a < 16 && b < 16,
            Instruction::Add { a, b } => a < 16 && b < 16,
            Instruction::Sub { a, b } => a < 16 && b < 16,
            Instruction::ShiftRight { register } => register < 16,
            Instruction::NegSub { a, b } => a < 16 && b < 16,
            Instruction::ShiftLeft { register } => register < 16,
            Instruction::IfNotEqualRegister { a, b } => a < 16 && b < 16,
            Instruction::SetI { address } => address < 0x1000,
            Instruction::JumpOffset { address } => address < 0x1000,
            Instruction::Rand { register, value } => register < 16,
            Instruction::DrawSprite { x, y, height } => x < 16 && y < 16 && height < 16,
            Instruction::IfPressed { register } => register < 16,
            Instruction::IfNotPressed { register } => register < 16,
            Instruction::GetTimer { register } => register < 16,
            Instruction::AwaitInput { register } => register < 16,
            Instruction::SetTimer { register } => register < 16,
            Instruction::SetSound { register } => register < 16,
            Instruction::AddToI { register } => register < 16,
            Instruction::SetIToFontChar { register } => register < 16,
            Instruction::BinaryCodedDecimal { register } => register < 16,
            Instruction::RegisterDump { register } => register < 16,
            Instruction::RegisterLoad { register } => register < 16,
        }
    }

    /// What an instruction word means: the instruction whose pattern it
    /// matches, or `UnknownOpcode` where it matches none.
    pub open spec fn decode(word: u16) -> Result<Instruction, Chip8Error> {
        let op = Opcode::fields(word);
        if op.control == 0x0 {
            if word == 0x00E0 {
                Ok(Instruction::ClearScreen)
            } else if word == 0x00EE {
                Ok(Instruction::Return)
            } else {
                Ok(Instruction::RCA1802 { address: op.address })
            }
        } else if op.control == 0x1 {
            Ok(Instruction::Jump { address: op.address })
        } else if op.control == 0x2 {
            Ok(Instruction::Subroutine { address: op.address })
        } else if op.control == 0x3 {
            Ok(Instruction::IfEqualConst { register: op.a, value: op.constant })
        } else if op.control == 0x4 {
            Ok(Instruction::IfNotEqualConst { register: op.a, value: op.constant })
        } else if op.control == 0x5 && op.c == 0x0 {
            Ok(Instruction::IfEqualRegister { a: op.a, b: op.b })
        } else if op.control == 0x6 {
            Ok(Instruction::SetConst { register: op.a, value: op.constant })
        } else if op.control == 0x7 {
            Ok(Instruction::AddConst { register: op.a, value: op.constant })
        } else if op.control == 0x8 && op.c == 0x0 {
            Ok(Instruction::SetRegister { dest: op.a, src: op.b })
        } else if op.control == 0x8 && op.c == 0x1 {
            Ok(Instruction::Or { a: op.a, b: op.b })
        } else if op.control == 0x8 && op.c == 0x2 {
            Ok(Instruction::And { a: op.a, b: op.b })
        } else if op.control == 0x8 && op.c == 0x3 {
            Ok(Instruction::Xor { a: op.a, b: op.b })
        } else if op.control == 0x8 && op.c == 0x4 {
            Ok(Instruction::Add { a: op.a, b: op.b })
        } else if op.control == 0x8 && op.c == 0x5 {
            Ok(Instruction::Sub { a: op.a, b: op.b })
        } else if op.control == 0x8 && op.c == 0x6 {
            Ok(Instruction::ShiftRight { register: op.a })
        } else if op.control == 0x8 && op.c == 0x7 {
            Ok(Instruction::NegSub { a: op.a, b: op.b })
        } else if op.control == 0x8 && op.c == 0xE {
            Ok(Instruction::ShiftLeft { register: op.a })
        } else if op.control == 0x9 && op.c == 0x0 {
            Ok(Instruction::IfNotEqualRegister { a: op.a, b: op.b })
        } else if op.control == 0xA {
            Ok(Instruction::SetI { address: op.address })
        } else if op.control == 0xB {
            Ok(Instruction::JumpOffset { address: op.address })
        } else if op.control == 0xC {
            Ok(Instruction::Rand { register: op.a, value: op.constant })
        } else if op.control == 0xD {
            Ok(Instruction::DrawSprite { x: op.a, y: op.b, height: op.c })
        } else if op.control == 0xE && op.constant == 0x9E {
            Ok(Instruction::IfPressed { register: op.a })
        } else if op.control == 0xE && op.constant == 0xA1 {
            Ok(Instruction::IfNotPressed { register: op.a })
        } else if op.control == 0xF && op.constant == 0x07 {
            Ok(Instruction::GetTimer { register: op.a })
        } else if op.control == 0xF && op.constant == 0x0A {
            Ok(Instruction::AwaitInput { register: op.a })
        } else if op.control == 0xF && op.constant == 0x15 {
            Ok(Instruction::SetTimer { register: op.a })
        } else if op.control == 0xF && op.constant == 0x18 {
            Ok(Instruction::SetSound { register: op.a })
        } else if op.control == 0xF && op.constant == 0x1E {
            Ok(Instruction::AddToI { register: op.a })
        } else if op.control == 0xF && op.constant == 0x29 {
            Ok(Instruction::SetIToFontChar { register: op.a })
        } else if op.control == 0xF && op.constant == 0x33 {
            Ok(Instruction::BinaryCodedDecimal { register: op.a })
        } else if op.control == 0xF && op.constant == 0x55 {
            Ok(Instruction::RegisterDump { register: op.a })
        } else if op.control == 0xF && op.constant == 0x65 {
            Ok(Instruction::RegisterLoad { register: op.a })
        } else {
            Err(Chip8Error::UnknownOpcode)
        }
    }

    /// Decodes an instruction word.
    pub fn from_opcode(opcode: u16) -> (decoded: Result<Instruction, Chip8Error>)
        ensures
            decoded == Self::decode(opcode),
            decoded matches Ok(instruction) ==> instruction.well_formed(),
    {
        let op = Opcode::new(opcode);
        match op.control {
            0x0 => match (op.a, op.constant) {
                (0x0, 0xE0) => Ok(Instruction::ClearScreen),
                (0x0, 0xEE) => Ok(Instruction::Return),
                _ => Ok(Instruction::RCA1802 { address: op.address }),
            },
            0x1 => Ok(Instruction::Jump { address: op.address }),
            0x2 => Ok(Instruction::Subroutine { address: op.address }),
            0x3 => Ok(Instruction::IfEqualConst { register: op.a, value: op.constant }),
            0x4 => Ok(Instruction::IfNotEqualConst { register: op.a, value: op.constant }),
            0x5 => match op.c {
                0x0 => Ok(Instruction::IfEqualRegister { a: op.a, b: op.b }),
                _ => Err(Chip8Error::UnknownOpcode),
            },
            0x6 => Ok(Instruction::SetConst { register: op.a, value: op.constant }),
            0x7 => Ok(Instruction::AddConst { register: op.a, value: op.constant }),
            0x8 => match op.c {
                0x0 => Ok(Instruction::SetRegister { dest: op.a, src: op.b }),
                0x1 => Ok(Instruction::Or { a: op.a, b: op.b }),
                0x2 => Ok(Instruction::And { a: op.a, b: op.b }),
                0x3 => Ok(Instruction::Xor { a: op.a, b: op.b }),
                0x4 => Ok(Instruction::Add { a: op.a, b: op.b }),
                0x5 => Ok(Instruction::Sub { a: op.a, b: op.b }),
                0x6 => Ok(Instruction::ShiftRight { register: op.a }),
                0x7 => Ok(Instruction::NegSub { a: op.a, b: op.b }),
                0xE => Ok(Instruction::ShiftLeft { register: op.a }),
                _ => Err(Chip8Error::UnknownOpcode),
            },
            0x9 => match op.c {
                0x0 => Ok(Instruction::IfNotEqualRegister { a: op.a, b: op.b }),
                _ => Err(Chip8Error::UnknownOpcode),
            },
            0xA => Ok(Instruction::SetI { address: op.address }),
            0xB => Ok(Instruction::JumpOffset { address: op.address }),
            0xC => Ok(Instruction::Rand { register: op.a, value: op.constant }),
            0xD => Ok(Instruction::DrawSprite { x: op.a, y: op.b, height: op.c }),
            0xE => match op.constant {
                0x9E => Ok(Instruction::IfPressed { register: op.a }),
                0xA1 => Ok(Instruction::IfNotPressed { register: op.a }),
                _ => Err(Chip8Error::UnknownOpcode),
            },
            0xF => match op.constant {
                0x07 => Ok(Instruction::GetTimer { register: op.a }),
                0x0A => Ok(Instruction::AwaitInput { register: op.a }),
                0x15 => Ok(Instruction::SetTimer { register: op.a }),
                0x18 => Ok(Instruction::SetSound { register: op.a }),
                0x1E => Ok(Instruction::AddToI { register: op.a }),
                0x29 => Ok(Instruction::SetIToFontChar { register: op.a }),
                0x33 => Ok(Instruction::BinaryCodedDecimal { register: op.a }),
                0x55 => Ok(Instruction::RegisterDump { register: op.a }),
                0x65 => Ok(Instruction::RegisterLoad { register: op.a }),
                _ => Err(Chip8Error::UnknownOpcode),
            },
            _ => Err(Chip8Error::UnknownOpcode),
        }
    }
}

/// The instruction word that stands for `instruction`.
///
/// The two shift instructions use only one of the two register digits of
/// their pattern; `spare` is what the word holds in the other.
pub open spec fn encoding(instruction: Instruction, spare: u8) -> int {
    match instruction {
        Instruction::RCA1802 { address } => address as int,
        Instruction::ClearScreen => 0x00E0,
        Instruction::Return => 0x00EE,
        Instruction::Jump { address } => 0x1000 + address,
        Instruction::Subroutine { address } => 0x2000 + address,
        Instruction::IfEqualConst { register, value } => 0x3000 + register * 0x100 + value,
        Instruction::IfNotEqualConst { register, value } => 0x4000 + register * 0x100 + value,
        Instruction::IfEqualRegister { a, b } => 0x5000 + a * 0x100 + b * 0x10,
        Instruction::SetConst { register, value } => 0x6000 + register * 0x100 + value,
        Instruction::AddConst { register, value } => 0x7000 + register * 0x100 + value,
        Instruction::SetRegister { dest, src } => 0x8000 + dest * 0x100 + src * 0x10,
        Instruction::Or { a, b } => 0x8001 + a * 0x100 + b * 0x10,
        Instruction::And { a, b } => 0x8002 + a * 0x100 + b * 0x10,
        Instruction::Xor { a, b } => 0x8003 + a * 0x100 + b * 0x10,
        Instruction::Add { a, b } => 0x8004 + a * 0x100 + b * 0x10,
        Instruction::Sub { a, b } => 0x8005 + a * 0x100 + b * 0x10,
        Instruction::ShiftRight { register } => 0x8006 + register * 0x100 + spare * 0x10,
        Instruction::NegSub { a, b } => 0x8007 + a * 0x100 + b * 0x10,
        Instruction::ShiftLeft { register } => 0x800E + register * 0x100 + spare * 0x10,
        Instruction::IfNotEqualRegister { a, b } => 0x9000 + a * 0x100 + b * 0x10,
        Instruction::SetI { address } => 0xA000 + address,
        Instruction::JumpOffset { address } => 0xB000 + address,
        Instruction::Rand { register, value } => 0xC000 + register * 0x100 + value,
        Instruction::DrawSprite { x, y, height } => 0xD000 + x * 0x100 + y * 0x10 + height,
        Instruction::IfPressed { register } => 0xE09E + register * 0x100,
        Instruction::IfNotPressed { register } => 0xE0A1 + register * 0x100,
        Instruction::GetTimer { register } => 0xF007 + register * 0x100,
        Instruction::AwaitInput { register } => 0xF00A + register * 0x100,
        Instruction::SetTimer { register } => 0xF015 + register * 0x100,
        Instruction::SetSound { register } => 0xF018 + register * 0x100,
        Instruction::AddToI { register } => 0xF01E + register * 0x100,
        Instruction::SetIToFontChar { register } => 0xF029 + register * 0x100,
        Instruction::BinaryCodedDecimal { register } => 0xF033 + register * 0x100,
        Instruction::RegisterDump { register } => 0xF055 + register * 0x100,
        Instruction::RegisterLoad { register } => 0xF065 + register * 0x100,
    }
}

/// Whether `instruction` is a native call whose address is one of the two
/// that the patterns of `ClearScreen` and `Return` claim.
pub open spec fn shadowed(instruction: Instruction) -> bool {
    instruction matches Instruction::RCA1802 { address } && (address == 0x0E0 || address == 0x0EE)
}

/// A word put together from four digits gives them back on division.
proof fn lemma_digits_of_word(control: u16, a: u16, b: u16, c: u16)
    by (bit_vector)
    requires
        control < 16,
        a < 16,
        b < 16,
        c < 16,
    ensures
        ({
            let word = (control * 0x1000 + a * 0x100 + b * 0x10 + c) as u16;
            &&& word == control * 0x1000 + a * 0x100 + b * 0x10 + c
            &&& word / 0x1000 == control
            &&& word % 0x1000 == a * 0x100 + b * 0x10 + c
            &&& word % 0x100 == b * 0x10 + c
            &&& word / 0x100 % 0x10 == a
            &&& word / 0x10 % 0x10 == b
            &&& word % 0x10 == c
        }),
{
}

/// A word is put together from the four digits that division gives.
proof fn lemma_word_of_digits(word: u16)
    by (bit_vector)
    ensures
        word == (word / 0x1000) * 0x1000 + (word / 0x100 % 0x10) * 0x100 + (word / 0x10 % 0x10)
            * 0x10 + word % 0x10,
        word % 0x1000 == (word / 0x100 % 0x10) * 0x100 + (word / 0x10 % 0x10) * 0x10 + word
            % 0x10,
        word % 0x100 == (word / 0x10 % 0x10) * 0x10 + word % 0x10,
        word / 0x1000 < 16,
{
}

/// The fields of the word whose four digits are `control`, `a`, `b` and `c`.
proof fn lemma_fields_of_digits(control: u8, a: u8, b: u8, c: u8)
    requires
        control < 16,
        a < 16,
        b < 16,
        c < 16,
    ensures
        ({
            let word = control * 0x1000 + a * 0x100 + b * 0x10 + c;
            &&& 0 <= word <= u16::MAX
            &&& Opcode::fields(word as u16) == Opcode {
                control,
                address: (a * 0x100 + b * 0x10 + c) as u16,
                constant: (b * 0x10 + c) as u8,
                a,
                b,
                c,
            }
        }),
{
    lemma_digits_of_word(control as u16, a as u16, b as u16, c as u16);
}

/// The `Ok` of a decoded instruction, for brevity in what follows.
spec fn decoded(instruction: Instruction) -> Result<Instruction, Chip8Error> {
    Ok(instruction)
}

/// `lemma_decode_encoding` for the instructions that take an address.
proof fn lemma_decode_address(instruction: Instruction)
    requires
        instruction.well_formed(),
        !shadowed(instruction),
        instruction is RCA1802 || instruction is Jump || instruction is Subroutine
            || instruction is SetI || instruction is JumpOffset,
    ensures
        0 <= encoding(instruction, 0) <= u16::MAX,
        Instruction::decode(encoding(instruction, 0) as u16) == decoded(instruction),
{
    let word = encoding(instruction, 0);
    let control = (word / 0x1000) as u8;
    let address = word % 0x1000;
    lemma_fields_of_digits(
        control,
        (address / 0x100) as u8,
        (address / 0x10 % 0x10) as u8,
        (address % 0x10) as u8,
    );
}

/// `lemma_decode_encoding` for the instructions that take a register and a
/// constant.
proof fn lemma_decode_constant(instruction: Instruction)
    requires
        instruction.well_formed(),
        instruction is IfEqualConst || instruction is IfNotEqualConst || instruction is SetConst
            || instruction is AddConst || instruction is Rand,
    ensures
        0 <= encoding(instruction, 0) <= u16::MAX,
        Instruction::decode(encoding(instruction, 0) as u16) == decoded(instruction),
{
    let word = encoding(instruction, 0);
    let control = (word / 0x1000) as u8;
    let rest = word % 0x1000;
    lemma_fields_of_digits(
        control,
        (rest / 0x100) as u8,
        (rest / 0x10 % 0x10) as u8,
        (rest % 0x10) as u8,
    );
}

/// `lemma_decode_encoding` for the instructions that take two registers, and
/// for the draw instruction.
proof fn lemma_decode_registers(instruction: Instruction, spare: u8)
    requires
        instruction.well_formed(),
        spare < 16,
        instruction is IfEqualRegister || instruction is SetRegister || instruction is Or
            || instruction is And || instruction is Xor || instruction is Add
            || instruction is Sub || instruction is ShiftRight || instruction is NegSub
            || instruction is ShiftLeft || instruction is IfNotEqualRegister
            || instruction is DrawSprite,
    ensures
        0 <= encoding(instruction, spare) <= u16::MAX,
        Instruction::decode(encoding(instruction, spare) as u16) == decoded(instruction),
{
    match instruction {
        Instruction::IfEqualRegister { a, b } => lemma_fields_of_digits(0x5, a, b, 0x0),
        Instruction::SetRegister { dest, src } => lemma_fields_of_digits(0x8, dest, src, 0x0),
        Instruction::Or { a, b } => lemma_fields_of_digits(0x8, a, b, 0x1),
        Instruction::And { a, b } => lemma_fields_of_digits(0x8, a, b, 0x2),
        Instruction::Xor { a, b } => lemma_fields_of_digits(0x8, a, b, 0x3),
        Instruction::Add { a, b } => lemma_fields_of_digits(0x8, a, b, 0x4),
        Instruction::Sub { a, b } => lemma_fields_of_digits(0x8, a, b, 0x5),
        Instruction::ShiftRight { register } => lemma_fields_of_digits(0x8, register, spare, 0x6),
        Instruction::NegSub { a, b } => lemma_fields_of_digits(0x8, a, b, 0x7),
        Instruction::ShiftLeft { register } => lemma_fields_of_digits(0x8, register, spare, 0xE),
        Instruction::IfNotEqualRegister { a, b } => lemma_fields_of_digits(0x9, a, b, 0x0),
        Instruction::DrawSprite { x, y, height } => lemma_fields_of_digits(0xD, x, y, height),
        _ => {},
    }
}

/// `lemma_decode_encoding` for the instructions that take one register, and
/// for those that take nothing.
proof fn lemma_decode_register(instruction: Instruction)
    requires
        instruction.well_formed(),
        instruction is ClearScreen || instruction is Return || instruction is IfPressed
            || instruction is IfNotPressed || instruction is GetTimer
            || instruction is AwaitInput || instruction is SetTimer || instruction is SetSound
            || instruction is AddToI || instruction is SetIToFontChar
            || instruction is BinaryCodedDecimal || instruction is RegisterDump
            || instruction is RegisterLoad,
    ensures
        0 <= encoding(instruction, 0) <= u16::MAX,
        Instruction::decode(encoding(instruction, 0) as u16) == decoded(instruction),
{
    match instruction {
        Instruction::ClearScreen => lemma_fields_of_digits(0x0, 0x0, 0xE, 0x0),
        Instruction::Return => lemma_fields_of_digits(0x0, 0x0, 0xE, 0xE),
        Instruction::IfPressed { register } => lemma_fields_of_digits(0xE, register, 0x9, 0xE),
        Instruction::IfNotPressed { register } => lemma_fields_of_digits(0xE, register, 0xA, 0x1),
        Instruction::GetTimer { register } => lemma_fields_of_digits(0xF, register, 0x0, 0x7),
        Instruction::AwaitInput { register } => lemma_fields_of_digits(0xF, register, 0x0, 0xA),
        Instruction::SetTimer { register } => lemma_fields_of_digits(0xF, register, 0x1, 0x5),
        Instruction::SetSound { register } => lemma_fields_of_digits(0xF, register, 0x1, 0x8),
        Instruction::AddToI { register } => lemma_fields_of_digits(0xF, register, 0x1, 0xE),
        Instruction::SetIToFontChar { register } => lemma_fields_of_digits(0xF, register, 0x2, 0x9),
        Instruction::BinaryCodedDecimal { register } => lemma_fields_of_digits(
            0xF,
            register,
            0x3,
            0x3,
        ),
        Instruction::RegisterDump { register } => lemma_fields_of_digits(0xF, register, 0x5, 0x5),
        Instruction::RegisterLoad { register } => lemma_fields_of_digits(0xF, register, 0x6, 0x5),
        _ => {},
    }
}

/// Decoding the word that stands for an instruction gives that instruction,
/// with every operand as it was encoded.
///
/// This holds of every instruction whose operands fit their fields, but for
/// a native call to one of the two addresses whose word means `ClearScreen`
/// or `Return`.
pub proof fn lemma_decode_encoding(instruction: Instruction, spare: u8)
    requires
        instruction.well_formed(),
        spare < 16,
        !shadowed(instruction),
    ensures
        0 <= encoding(instruction, spare) <= u16::MAX,
        Instruction::decode(encoding(instruction, spare) as u16) == Ok::<Instruction, Chip8Error>(
            instruction,
        ),
{
    if instruction is RCA1802 || instruction is Jump || instruction is Subroutine
        || instruction is SetI || instruction is JumpOffset {
        lemma_decode_address(instruction);
    } else if instruction is IfEqualConst || instruction is IfNotEqualConst
        || instruction is SetConst || instruction is AddConst || instruction is Rand {
        lemma_decode_constant(instruction);
    } else if instruction is IfEqualRegister || instruction is SetRegister || instruction is Or
        || instruction is And || instruction is Xor || instruction is Add || instruction is Sub
        || instruction is ShiftRight || instruction is NegSub || instruction is ShiftLeft
        || instruction is IfNotEqualRegister || instruction is DrawSprite {
        lemma_decode_registers(instruction, spare);
    } else {
        lemma_decode_register(instruction);
    }
}

/// A word that decodes to an instruction is the word that stands for it,
/// with the word's second lowest digit as the spare one.
pub proof fn lemma_encoding_decode(word: u16)
    ensures
        Instruction::decode(word) matches Ok(instruction) ==> {
            &&& instruction.well_formed()
            &&& !shadowed(instruction)
            &&& encoding(instruction, Opcode::fields(word).b) == word
        },
{
    lemma_word_of_digits(word);
}

/// A word is unknown exactly if no instruction stands behind it.
pub proof fn lemma_unknown_opcode(word: u16, instruction: Instruction, spare: u8)
    requires
        Instruction::decode(word) is Err,
        instruction.well_formed(),
        spare < 16,
        !shadowed(instruction),
    ensures
        Instruction::decode(word) == Err::<Instruction, Chip8Error>(Chip8Error::UnknownOpcode),
        encoding(instruction, spare) != word,
{
    lemma_decode_encoding(instruction, spare);
}

} // verus!
