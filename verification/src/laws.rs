//! Laws of the machine: what follows, for every state, from the description
//! of the instructions and of the timers.

use vstd::prelude::*;
use crate::display::{pixel_index, HEIGHT, WIDTH};
use crate::error::Chip8Error;
use crate::input::{first_pressed, lemma_first_pressed_from};
use crate::instruction::Instruction;
use crate::sprite::{collides, drawn, lemma_draw_single_pixel, lemma_draw_twice};
use crate::state::{
    key_down, Advance, CpuState, FLAG_REGISTER, MEMORY_SIZE, REGISTER_COUNT, STACK_LIMIT,
};

verus! {

/// The flag as a number: 1 if `set`, else 0.
pub open spec fn flag_value(set: bool) -> u8 {
    if set {
        1
    } else {
        0
    }
}

/// Adding two registers sets the flag to 1 exactly if the sum exceeds eight
/// bits, and leaves the sum's low eight bits in the first register unless
/// that register is the flag itself.
pub proof fn lemma_add_flag(
    state: CpuState,
    a: u8,
    b: u8,
    plane: Seq<bool>,
    keys: Seq<bool>,
    random: u8,
)
    requires
        state.well_formed(),
        a < REGISTER_COUNT,
        b < REGISTER_COUNT,
    ensures
        ({
            let after = state.effect(Instruction::Add { a, b }, plane, keys, random);
            let sum = state.register(a) + state.register(b);
            &&& after.register(FLAG_REGISTER) == flag_value(sum > 255)
            &&& a != FLAG_REGISTER ==> after.register(a) == sum % 256
        }),
{
}

/// Subtracting the second register from the first sets the flag to 1
/// exactly if the first is at least the second, so that nothing is borrowed,
/// and leaves the difference's low eight bits in the first register unless
/// that register is the flag itself.
pub proof fn lemma_sub_flag(
    state: CpuState,
    a: u8,
    b: u8,
    plane: Seq<bool>,
    keys: Seq<bool>,
    random: u8,
)
    requires
        state.well_formed(),
        a < REGISTER_COUNT,
        b < REGISTER_COUNT,
    ensures
        ({
            let after = state.effect(Instruction::Sub { a, b }, plane, keys, random);
            let difference = state.register(a) - state.register(b);
            &&& after.register(FLAG_REGISTER) == flag_value(state.register(a) >= state.register(b))
            &&& a != FLAG_REGISTER ==> after.register(a) == difference % 256
        }),
{
}

/// Subtracting the first register from the second sets the flag to 1
/// exactly if the second is at least the first, and leaves the difference's
/// low eight bits in the first register unless that register is the flag
/// itself.
pub proof fn lemma_neg_sub_flag(
    state: CpuState,
    a: u8,
    b: u8,
    plane: Seq<bool>,
    keys: Seq<bool>,
    random: u8,
)
    requires
        state.well_formed(),
        a < REGISTER_COUNT,
        b < REGISTER_COUNT,
    ensures
        ({
            let after = state.effect(Instruction::NegSub { a, b }, plane, keys, random);
            let difference = state.register(b) - state.register(a);
            &&& after.register(FLAG_REGISTER) == flag_value(state.register(b) >= state.register(a))
            &&& a != FLAG_REGISTER ==> after.register(a) == difference % 256
        }),
{
}

/// Shifting a register other than the flag right sets the flag to the
/// register's lowest bit and halves the register.
pub proof fn lemma_shift_right_flag(
    state: CpuState,
    register: u8,
    plane: Seq<bool>,
    keys: Seq<bool>,
    random: u8,
)
    requires
        state.well_formed(),
        register < REGISTER_COUNT,
        register != FLAG_REGISTER,
    ensures
        ({
            let after = state.effect(Instruction::ShiftRight { register }, plane, keys, random);
            &&& after.register(FLAG_REGISTER) == state.register(register) % 2
            &&& after.register(register) == state.register(register) / 2
        }),
{
}

/// Shifting a register other than the flag at_x sets the flag to the
/// register's highest bit and doubles the register within eight bits.
pub proof fn lemma_shift_left_flag(
    state: CpuState,
    register: u8,
    plane: Seq<bool>,
    keys: Seq<bool>,
    random: u8,
)
    requires
        state.well_formed(),
        register < REGISTER_COUNT,
        register != FLAG_REGISTER,
    ensures
        ({
            let after = state.effect(Instruction::ShiftLeft { register }, plane, keys, random);
            &&& after.register(FLAG_REGISTER) == state.register(register) / 128
            &&& after.register(register) == (state.register(register) * 2) % 256
        }),
{
}

/// The timer value `ticks` ticks after it was `value`.
pub open spec fn counted_down(value: u8, ticks: nat) -> u8
    decreases ticks,
{
    if ticks == 0 {
        value
    } else {
        let earlier = counted_down(value, (ticks - 1) as nat);
        if earlier > 0 {
            (earlier - 1) as u8
        } else {
            0
        }
    }
}

/// The processor `ticks` timer ticks after it was in `state`.
pub open spec fn ticked_times(state: CpuState, ticks: nat) -> CpuState
    decreases ticks,
{
    if ticks == 0 {
        state
    } else {
        ticked_times(state, (ticks - 1) as nat).ticked()
    }
}

/// A timer that is ticked `ticks` times from `value` holds `value - ticks`,
/// or zero where that would be negative.
pub proof fn lemma_counted_down(value: u8, ticks: nat)
    ensures
        counted_down(value, ticks) == if value >= ticks {
            value - ticks
        } else {
            0
        },
    decreases ticks,
{
    if ticks > 0 {
        lemma_counted_down(value, (ticks - 1) as nat);
    }
}

/// Ticking the processor `ticks` times takes `ticks` off each timer, stopping
/// at zero, and touches nothing else. A timer at zero stays at zero.
pub proof fn lemma_ticked_times(state: CpuState, ticks: nat)
    ensures
        ticked_times(state, ticks) == (CpuState {
            delay_timer: if state.delay_timer >= ticks {
                (state.delay_timer - ticks) as u8
            } else {
                0
            },
            sound_timer: if state.sound_timer >= ticks {
                (state.sound_timer - ticks) as u8
            } else {
                0
            },
            ..state
        }),
    decreases ticks,
{
    if ticks > 0 {
        lemma_ticked_times(state, (ticks - 1) as nat);
    }
}

/// An instruction that runs without fault keeps the machine in shape:
/// memory, register file and display keep their sizes, a call stack within
/// its limit stays within it, an address register that points into memory
/// still does, and an instruction pointer that is only advanced stays on
/// the same side of the two byte boundary.
pub proof fn lemma_run_keeps_shape(
    state: CpuState,
    instruction: Instruction,
    plane: Seq<bool>,
    keys: Seq<bool>,
    random: u8,
)
    requires
        state.well_formed(),
        instruction.well_formed(),
        plane.len() == WIDTH * HEIGHT,
    ensures
        state.run(instruction, plane, keys, random) matches Ok((after, shown)) ==> {
            &&& after.well_formed()
            &&& shown.len() == WIDTH * HEIGHT
            &&& state.stack.len() <= STACK_LIMIT ==> after.stack.len() <= STACK_LIMIT
            &&& state.address_register < MEMORY_SIZE ==> after.address_register < MEMORY_SIZE
            &&& !(state.advance(instruction, keys) is Jump) ==> after.instruction_pointer % 2
                == state.instruction_pointer % 2
        },
{
}

/// A jump puts the instruction pointer on its target, wherever it was, and
/// changes nothing else.
pub proof fn lemma_jump(
    state: CpuState,
    address: u16,
    plane: Seq<bool>,
    keys: Seq<bool>,
    random: u8,
)
    requires
        state.instruction_in_memory(),
    ensures
        state.advance(Instruction::Jump { address }, keys) == Advance::Jump(address),
        state.run(Instruction::Jump { address }, plane, keys, random) == Ok::<
            (CpuState, Seq<bool>),
            Chip8Error,
        >((CpuState { instruction_pointer: address, ..state }, plane)),
{
}

/// Whether `instruction` is a conditional skip whose condition does not hold
/// in `state` with `keys` on the keypad.
pub open spec fn skip_not_taken(state: CpuState, instruction: Instruction, keys: Seq<bool>) -> bool {
    match instruction {
        Instruction::IfEqualConst { register, value } => state.register(register) != value,
        Instruction::IfNotEqualConst { register, value } => state.register(register) == value,
        Instruction::IfEqualRegister { a, b } => state.register(a) != state.register(b),
        Instruction::IfNotEqualRegister { a, b } => state.register(a) == state.register(b),
        Instruction::IfPressed { register } => !key_down(keys, state.register(register)),
        Instruction::IfNotPressed { register } => key_down(keys, state.register(register)),
        _ => false,
    }
}

/// A conditional skip whose condition does not hold does what the no-op
/// does: the instruction pointer moves on by two, nothing else changes.
pub proof fn lemma_skip_not_taken(
    state: CpuState,
    instruction: Instruction,
    plane: Seq<bool>,
    keys: Seq<bool>,
    random: u8,
)
    requires
        skip_not_taken(state, instruction, keys),
    ensures
        state.run(instruction, plane, keys, random) == state.run(
            Instruction::RCA1802 { address: 0 },
            plane,
            keys,
            random,
        ),
        state.instruction_in_memory() ==> state.run(instruction, plane, keys, random) == Ok::<
            (CpuState, Seq<bool>),
            Chip8Error,
        >(
            (
                CpuState {
                    instruction_pointer: (state.instruction_pointer + 2) as u16,
                    ..state
                },
                plane,
            ),
        ),
{
}

/// A conditional skip whose condition holds moves the instruction pointer on
/// by four and changes nothing else.
pub proof fn lemma_skip_taken(
    state: CpuState,
    instruction: Instruction,
    plane: Seq<bool>,
    keys: Seq<bool>,
    random: u8,
)
    requires
        state.instruction_in_memory(),
        instruction is IfEqualConst || instruction is IfNotEqualConst
            || instruction is IfEqualRegister || instruction is IfNotEqualRegister
            || instruction is IfPressed || instruction is IfNotPressed,
        !skip_not_taken(state, instruction, keys),
    ensures
        state.run(instruction, plane, keys, random) == Ok::<(CpuState, Seq<bool>), Chip8Error>(
            (
                CpuState {
                    instruction_pointer: (state.instruction_pointer + 4) as u16,
                    ..state
                },
                plane,
            ),
        ),
{
}

/// While no key is down, a cycle on a wait for a key changes nothing at all:
/// the same instruction runs again in the same state, however often.
pub proof fn lemma_await_without_key(
    state: CpuState,
    register: u8,
    plane: Seq<bool>,
    keys: Seq<bool>,
    random: u8,
)
    requires
        keys.len() <= u8::MAX,
        forall|key: int| 0 <= key < keys.len() ==> !keys[key],
        state.fetched() matches Ok(word) && Instruction::decode(word) == Ok::<
            Instruction,
            Chip8Error,
        >(Instruction::AwaitInput { register }),
    ensures
        state.cycled(plane, keys, random) == Ok::<(CpuState, Seq<bool>), Chip8Error>(
            (state, plane),
        ),
{
    lemma_first_pressed_from(keys, 0);
}

/// Once a key is down, a cycle on a wait for a key stores the lowest key
/// that is down in the register and moves on by two, changing nothing else.
pub proof fn lemma_await_with_key(
    state: CpuState,
    register: u8,
    plane: Seq<bool>,
    keys: Seq<bool>,
    random: u8,
    key: u8,
)
    requires
        key < keys.len() <= u8::MAX,
        keys[key as int],
        forall|lower: int| 0 <= lower < key ==> !keys[lower],
        state.fetched() matches Ok(word) && Instruction::decode(word) == Ok::<
            Instruction,
            Chip8Error,
        >(Instruction::AwaitInput { register }),
    ensures
        state.cycled(plane, keys, random) == Ok::<(CpuState, Seq<bool>), Chip8Error>(
            (
                CpuState {
                    registers: state.registers.update(register as int, key),
                    instruction_pointer: (state.instruction_pointer + 2) as u16,
                    ..state
                },
                plane,
            ),
        ),
{
    lemma_first_pressed_from(keys, 0);
}

/// A cycle's outcome does not depend on the random byte unless the cycle
/// executes a random instruction.
pub proof fn lemma_random_matters_only_to_rand(
    state: CpuState,
    plane: Seq<bool>,
    keys: Seq<bool>,
    first: u8,
    second: u8,
)
    requires
        !state.rolls(),
    ensures
        state.cycled(plane, keys, first) == state.cycled(plane, keys, second),
{
    match state.fetched() {
        Ok(word) => match Instruction::decode(word) {
            Ok(instruction) => {
                assert(state.effect(instruction, plane, keys, first) == state.effect(
                    instruction,
                    plane,
                    keys,
                    second,
                ));
            },
            Err(_) => {},
        },
        Err(_) => {},
    }
}

/// Drawing the sprite of one pixel twice at the same position brings the
/// display back to what it was. The first draw reports a collision exactly if
/// the pixel was on before it, the second exactly if the pixel was on before
/// the second, which is if it was off at the start.
pub proof fn lemma_draw_pixel_twice(
    state: CpuState,
    x: u8,
    y: u8,
    plane: Seq<bool>,
    keys: Seq<bool>,
    random: u8,
)
    requires
        state.well_formed(),
        plane.len() == WIDTH * HEIGHT,
        x < REGISTER_COUNT,
        y < REGISTER_COUNT,
        x != FLAG_REGISTER,
        y != FLAG_REGISTER,
        state.address_register < state.memory.len(),
        state.memory[state.address_register as int] == 0x80,
    ensures
        ({
            let draw = Instruction::DrawSprite { x, y, height: 1 };
            let index = pixel_index(
                state.register(x) as int % (WIDTH as int),
                state.register(y) as int % (HEIGHT as int),
            );
            let first = state.effect(draw, plane, keys, random);
            let between = state.screen(draw, plane);
            let second = first.effect(draw, between, keys, random);
            &&& 0 <= index < plane.len()
            &&& between == plane.update(index, !plane[index])
            &&& first.screen(draw, between) == plane
            &&& first.register(FLAG_REGISTER) == flag_value(plane[index])
            &&& second.register(FLAG_REGISTER) == flag_value(between[index])
            &&& between[index] == !plane[index]
        }),
{
    let draw = Instruction::DrawSprite { x, y, height: 1 };
    let sprite = state.sprite(1);
    assert(sprite =~= seq![0x80u8]);
    let first = state.effect(draw, plane, keys, random);
    assert(first.sprite(1) =~= sprite);
    let at_x = state.register(x);
    let at_y = state.register(y);
    lemma_draw_single_pixel(plane, at_x, at_y);
    let between = drawn(plane, sprite, at_x, at_y);
    lemma_draw_single_pixel(between, at_x, at_y);
    lemma_draw_twice(plane, sprite, at_x, at_y);
}

} // verus!
