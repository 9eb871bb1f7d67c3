use chip8::cpu::CPU;
use chip8::display::Display;
use chip8::error::Chip8Error;
use chip8::input::Input;
use chip8::instruction::Instruction;

fn run(cpu: &mut CPU, display: &mut Display, input: &Input, instruction: Instruction) {
    assert_eq!(cpu.execute_instruction(instruction, display, input, 0), Ok(()));
}

fn set(cpu: &mut CPU, register: u8, value: u8) {
    let mut display = Display::new();
    let input = Input::new();
    let at = cpu.instruction_pointer();
    run(cpu, &mut display, &input, Instruction::SetConst { register, value });
    run(cpu, &mut display, &input, Instruction::Jump { address: at });
}

fn registers(cpu: &CPU) -> Vec<u8> {
    (0..16).map(|index| cpu.register(index)).collect()
}

const FONT: [u8; 80] = [
    0xF0, 0x90, 0x90, 0x90, 0xF0, 0x20, 0x60, 0x20, 0x20, 0x70, 0xF0, 0x10, 0xF0, 0x80, 0xF0, 0xF0,
    0x10, 0xF0, 0x10, 0xF0, 0x90, 0x90, 0xF0, 0x10, 0x10, 0xF0, 0x80, 0xF0, 0x10, 0xF0, 0xF0, 0x80,
    0xF0, 0x90, 0xF0, 0xF0, 0x10, 0x20, 0x40, 0x40, 0xF0, 0x90, 0xF0, 0x90, 0xF0, 0xF0, 0x90, 0xF0,
    0x10, 0xF0, 0xF0, 0x90, 0xF0, 0x90, 0x90, 0xE0, 0x90, 0xE0, 0x90, 0xE0, 0xF0, 0x80, 0x80, 0x80,
    0xF0, 0xE0, 0x90, 0x90, 0x90, 0xE0, 0xF0, 0x80, 0xF0, 0x80, 0xF0, 0xF0, 0x80, 0xF0, 0x80, 0x80,
];

#[test]
fn new_cpu_holds_font_and_program() {
    let program = [0x12, 0x34, 0x56];
    let cpu = CPU::new(&program);
    for address in 0..4096u16 {
        let expected = if address < 80 {
            FONT[address as usize]
        } else if (0x200..0x203).contains(&address) {
            program[address as usize - 0x200]
        } else {
            0
        };
        assert_eq!(cpu.memory_at(address), expected);
    }
    assert_eq!(registers(&cpu), vec![0; 16]);
    assert_eq!(cpu.instruction_pointer(), 0x200);
    assert_eq!(cpu.address_register(), 0);
    assert_eq!(cpu.delay_timer(), 0);
    assert_eq!(cpu.sound_timer(), 0);
    assert_eq!(cpu.stack_depth(), 0);
    assert!(!cpu.should_play_sound());
}

#[test]
fn new_cpu_takes_a_program_that_fills_memory() {
    let program = vec![0xAB; 4096 - 0x200];
    let cpu = CPU::new(&program);
    assert_eq!(cpu.memory_at(0x200), 0xAB);
    assert_eq!(cpu.memory_at(0xFFF), 0xAB);
    assert_eq!(cpu.memory_at(0x1FF), 0);
}

#[test]
fn new_cpu_takes_an_empty_program() {
    let cpu = CPU::new(&[]);
    assert_eq!(cpu.memory_at(0x200), 0);
    assert_eq!(cpu.fetch(), Ok(0x0000));
}

#[test]
fn fetch_reads_the_high_byte_first() {
    let cpu = CPU::new(&[0xA2, 0xF0]);
    assert_eq!(cpu.fetch(), Ok(0xA2F0));
}

#[test]
fn fetch_fails_past_the_end_of_memory() {
    let mut cpu = CPU::new(&[]);
    let mut display = Display::new();
    let input = Input::new();
    run(&mut cpu, &mut display, &input, Instruction::Jump { address: 0xFFE });
    assert_eq!(cpu.fetch(), Ok(0));
    run(&mut cpu, &mut display, &input, Instruction::Jump { address: 0xFFF });
    assert_eq!(cpu.fetch(), Err(Chip8Error::MemoryOutOfRange));
    assert_eq!(cpu.cycle(&mut display, &input), Err(Chip8Error::MemoryOutOfRange));
    assert_eq!(cpu.instruction_pointer(), 0xFFF);
}

#[test]
fn execute_fails_where_the_instruction_is_not_in_memory() {
    let mut cpu = CPU::new(&[]);
    let mut display = Display::new();
    let input = Input::new();
    set(&mut cpu, 0, 0xFF);
    run(&mut cpu, &mut display, &input, Instruction::JumpOffset { address: 0xFFF });
    assert_eq!(cpu.instruction_pointer(), 0xFFF + 0xFF);
    assert_eq!(
        cpu.execute_instruction(Instruction::SetConst { register: 1, value: 1 }, &mut display, &input, 0),
        Err(Chip8Error::MemoryOutOfRange)
    );
    assert_eq!(cpu.register(1), 0);
    assert_eq!(cpu.instruction_pointer(), 0xFFF + 0xFF);
}

#[test]
fn native_call_is_a_no_op() {
    let mut cpu = CPU::new(&[0x01, 0x23]);
    let mut display = Display::new();
    display.set_pixel(1, 1, true);
    let input = Input::new();
    assert_eq!(cpu.cycle(&mut display, &input), Ok(()));
    assert_eq!(cpu.instruction_pointer(), 0x202);
    assert_eq!(registers(&cpu), vec![0; 16]);
    assert_eq!(cpu.stack_depth(), 0);
    assert!(display.get_pixel(1, 1));
}

#[test]
fn unknown_opcode_stops_the_cycle() {
    let mut cpu = CPU::new(&[0xFF, 0xFF]);
    let mut display = Display::new();
    let input = Input::new();
    assert_eq!(cpu.cycle(&mut display, &input), Err(Chip8Error::UnknownOpcode));
    assert_eq!(cpu.instruction_pointer(), 0x200);
    assert_eq!(cpu.cycle_with(&mut display, &input, 7), Err(Chip8Error::UnknownOpcode));
}

#[test]
fn jump_sets_the_instruction_pointer() {
    let mut cpu = CPU::new(&[0x1A, 0xBC]);
    let mut display = Display::new();
    let input = Input::new();
    assert_eq!(cpu.cycle(&mut display, &input), Ok(()));
    assert_eq!(cpu.instruction_pointer(), 0xABC);
    assert_eq!(registers(&cpu), vec![0; 16]);
}

#[test]
fn jump_offset_adds_register_zero() {
    let mut cpu = CPU::new(&[0x60, 0x12, 0xB3, 0x00]);
    let mut display = Display::new();
    let input = Input::new();
    assert_eq!(cpu.cycle(&mut display, &input), Ok(()));
    assert_eq!(cpu.cycle(&mut display, &input), Ok(()));
    assert_eq!(cpu.instruction_pointer(), 0x312);
}

#[test]
fn call_and_return() {
    // 0x200: call 0x206; 0x206: return
    let mut cpu = CPU::new(&[0x22, 0x06, 0x00, 0x00, 0x00, 0x00, 0x00, 0xEE]);
    let mut display = Display::new();
    let input = Input::new();
    assert_eq!(cpu.cycle(&mut display, &input), Ok(()));
    assert_eq!(cpu.instruction_pointer(), 0x206);
    assert_eq!(cpu.stack_depth(), 1);
    assert_eq!(cpu.cycle(&mut display, &input), Ok(()));
    assert_eq!(cpu.instruction_pointer(), 0x202);
    assert_eq!(cpu.stack_depth(), 0);
}

#[test]
fn return_with_empty_stack_underflows() {
    let mut cpu = CPU::new(&[0x00, 0xEE]);
    let mut display = Display::new();
    let input = Input::new();
    assert_eq!(cpu.cycle(&mut display, &input), Err(Chip8Error::StackUnderflow));
    assert_eq!(cpu.instruction_pointer(), 0x200);
    assert_eq!(cpu.stack_depth(), 0);
}

#[test]
fn seventeenth_call_overflows_the_stack() {
    // A subroutine that calls itself.
    let mut cpu = CPU::new(&[0x22, 0x00]);
    let mut display = Display::new();
    let input = Input::new();
    for depth in 1..=16 {
        assert_eq!(cpu.cycle(&mut display, &input), Ok(()));
        assert_eq!(cpu.stack_depth(), depth);
    }
    assert_eq!(cpu.cycle(&mut display, &input), Err(Chip8Error::MemoryOutOfRange));
    assert_eq!(cpu.stack_depth(), 16);
    assert_eq!(cpu.instruction_pointer(), 0x200);
}

#[test]
fn skip_if_equal_const() {
    let mut cpu = CPU::new(&[]);
    let mut display = Display::new();
    let input = Input::new();
    set(&mut cpu, 4, 0x33);
    run(&mut cpu, &mut display, &input, Instruction::IfEqualConst { register: 4, value: 0x33 });
    assert_eq!(cpu.instruction_pointer(), 0x204);
    run(&mut cpu, &mut display, &input, Instruction::IfEqualConst { register: 4, value: 0x34 });
    assert_eq!(cpu.instruction_pointer(), 0x206);
    run(&mut cpu, &mut display, &input, Instruction::IfNotEqualConst { register: 4, value: 0x34 });
    assert_eq!(cpu.instruction_pointer(), 0x20A);
    run(&mut cpu, &mut display, &input, Instruction::IfNotEqualConst { register: 4, value: 0x33 });
    assert_eq!(cpu.instruction_pointer(), 0x20C);
}

#[test]
fn skip_if_registers_compare() {
    let mut cpu = CPU::new(&[]);
    let mut display = Display::new();
    let input = Input::new();
    set(&mut cpu, 1, 9);
    set(&mut cpu, 2, 9);
    set(&mut cpu, 3, 8);
    run(&mut cpu, &mut display, &input, Instruction::IfEqualRegister { a: 1, b: 2 });
    assert_eq!(cpu.instruction_pointer(), 0x204);
    run(&mut cpu, &mut display, &input, Instruction::IfEqualRegister { a: 1, b: 3 });
    assert_eq!(cpu.instruction_pointer(), 0x206);
    run(&mut cpu, &mut display, &input, Instruction::IfNotEqualRegister { a: 1, b: 3 });
    assert_eq!(cpu.instruction_pointer(), 0x20A);
    run(&mut cpu, &mut display, &input, Instruction::IfNotEqualRegister { a: 1, b: 2 });
    assert_eq!(cpu.instruction_pointer(), 0x20C);
}

#[test]
fn skip_not_taken_is_a_no_op() {
    let mut skipping = CPU::new(&[0x31, 0x05]);
    let mut idle = CPU::new(&[0x01, 0x23]);
    let mut display = Display::new();
    let input = Input::new();
    assert_eq!(skipping.cycle(&mut display, &input), Ok(()));
    assert_eq!(idle.cycle(&mut display, &input), Ok(()));
    assert_eq!(skipping.instruction_pointer(), 0x202);
    assert_eq!(skipping.instruction_pointer(), idle.instruction_pointer());
    assert_eq!(registers(&skipping), registers(&idle));
    assert_eq!(skipping.address_register(), idle.address_register());
    assert_eq!(skipping.stack_depth(), idle.stack_depth());
}

#[test]
fn skip_on_keys() {
    let mut cpu = CPU::new(&[]);
    let mut display = Display::new();
    let mut input = Input::new();
    set(&mut cpu, 2, 0xB);
    run(&mut cpu, &mut display, &input, Instruction::IfPressed { register: 2 });
    assert_eq!(cpu.instruction_pointer(), 0x202);
    run(&mut cpu, &mut display, &input, Instruction::IfNotPressed { register: 2 });
    assert_eq!(cpu.instruction_pointer(), 0x206);
    input.key_pressed(0xB);
    run(&mut cpu, &mut display, &input, Instruction::IfPressed { register: 2 });
    assert_eq!(cpu.instruction_pointer(), 0x20A);
    run(&mut cpu, &mut display, &input, Instruction::IfNotPressed { register: 2 });
    assert_eq!(cpu.instruction_pointer(), 0x20C);
}

#[test]
fn a_number_that_names_no_key_is_never_down() {
    let mut cpu = CPU::new(&[]);
    let mut display = Display::new();
    let mut input = Input::new();
    for key in 0..16 {
        input.key_pressed(key);
    }
    set(&mut cpu, 2, 16);
    run(&mut cpu, &mut display, &input, Instruction::IfPressed { register: 2 });
    assert_eq!(cpu.instruction_pointer(), 0x202);
    set(&mut cpu, 2, 0xFF);
    run(&mut cpu, &mut display, &input, Instruction::IfNotPressed { register: 2 });
    assert_eq!(cpu.instruction_pointer(), 0x206);
}

#[test]
fn set_and_add_const_wrap() {
    let mut cpu = CPU::new(&[0x6A, 0xF0, 0x7A, 0x20]);
    let mut display = Display::new();
    let input = Input::new();
    assert_eq!(cpu.cycle(&mut display, &input), Ok(()));
    assert_eq!(cpu.register(0xA), 0xF0);
    assert_eq!(cpu.cycle(&mut display, &input), Ok(()));
    assert_eq!(cpu.register(0xA), 0x10);
    assert_eq!(cpu.register(0xF), 0);
    assert_eq!(cpu.instruction_pointer(), 0x204);
}

#[test]
fn copy_and_bitwise_operations() {
    let mut cpu = CPU::new(&[]);
    let mut display = Display::new();
    let input = Input::new();
    set(&mut cpu, 1, 0b1100);
    set(&mut cpu, 2, 0b1010);
    run(&mut cpu, &mut display, &input, Instruction::SetRegister { dest: 3, src: 1 });
    assert_eq!(cpu.register(3), 0b1100);
    run(&mut cpu, &mut display, &input, Instruction::Or { a: 3, b: 2 });
    assert_eq!(cpu.register(3), 0b1110);
    run(&mut cpu, &mut display, &input, Instruction::SetRegister { dest: 3, src: 1 });
    run(&mut cpu, &mut display, &input, Instruction::And { a: 3, b: 2 });
    assert_eq!(cpu.register(3), 0b1000);
    run(&mut cpu, &mut display, &input, Instruction::SetRegister { dest: 3, src: 1 });
    run(&mut cpu, &mut display, &input, Instruction::Xor { a: 3, b: 2 });
    assert_eq!(cpu.register(3), 0b0110);
    assert_eq!(cpu.register(1), 0b1100);
    assert_eq!(cpu.register(2), 0b1010);
}

#[test]
fn add_sets_the_flag_on_carry() {
    let mut cpu = CPU::new(&[]);
    let mut display = Display::new();
    let input = Input::new();
    set(&mut cpu, 1, 200);
    set(&mut cpu, 2, 55);
    run(&mut cpu, &mut display, &input, Instruction::Add { a: 1, b: 2 });
    assert_eq!(cpu.register(1), 255);
    assert_eq!(cpu.register(0xF), 0);
    set(&mut cpu, 2, 1);
    run(&mut cpu, &mut display, &input, Instruction::Add { a: 1, b: 2 });
    assert_eq!(cpu.register(1), 0);
    assert_eq!(cpu.register(0xF), 1);
    set(&mut cpu, 1, 200);
    set(&mut cpu, 2, 100);
    run(&mut cpu, &mut display, &input, Instruction::Add { a: 1, b: 2 });
    assert_eq!(cpu.register(1), 44);
    assert_eq!(cpu.register(0xF), 1);
}

#[test]
fn add_into_the_flag_register_keeps_the_flag() {
    let mut cpu = CPU::new(&[]);
    let mut display = Display::new();
    let input = Input::new();
    set(&mut cpu, 0xF, 250);
    set(&mut cpu, 2, 10);
    run(&mut cpu, &mut display, &input, Instruction::Add { a: 0xF, b: 2 });
    assert_eq!(cpu.register(0xF), 1);
    set(&mut cpu, 0xF, 3);
    run(&mut cpu, &mut display, &input, Instruction::Add { a: 0xF, b: 2 });
    assert_eq!(cpu.register(0xF), 0);
}

#[test]
fn sub_sets_the_flag_when_nothing_is_borrowed() {
    let mut cpu = CPU::new(&[]);
    let mut display = Display::new();
    let input = Input::new();
    set(&mut cpu, 1, 10);
    set(&mut cpu, 2, 3);
    run(&mut cpu, &mut display, &input, Instruction::Sub { a: 1, b: 2 });
    assert_eq!(cpu.register(1), 7);
    assert_eq!(cpu.register(0xF), 1);
    set(&mut cpu, 1, 3);
    set(&mut cpu, 2, 3);
    run(&mut cpu, &mut display, &input, Instruction::Sub { a: 1, b: 2 });
    assert_eq!(cpu.register(1), 0);
    assert_eq!(cpu.register(0xF), 1);
    set(&mut cpu, 1, 3);
    set(&mut cpu, 2, 10);
    run(&mut cpu, &mut display, &input, Instruction::Sub { a: 1, b: 2 });
    assert_eq!(cpu.register(1), 249);
    assert_eq!(cpu.register(0xF), 0);
}

#[test]
fn neg_sub_swaps_the_operands() {
    let mut cpu = CPU::new(&[]);
    let mut display = Display::new();
    let input = Input::new();
    set(&mut cpu, 1, 3);
    set(&mut cpu, 2, 10);
    run(&mut cpu, &mut display, &input, Instruction::NegSub { a: 1, b: 2 });
    assert_eq!(cpu.register(1), 7);
    assert_eq!(cpu.register(2), 10);
    assert_eq!(cpu.register(0xF), 1);
    set(&mut cpu, 1, 10);
    set(&mut cpu, 2, 3);
    run(&mut cpu, &mut display, &input, Instruction::NegSub { a: 1, b: 2 });
    assert_eq!(cpu.register(1), 249);
    assert_eq!(cpu.register(0xF), 0);
}

#[test]
fn shift_right_moves_the_low_bit_to_the_flag() {
    let mut cpu = CPU::new(&[]);
    let mut display = Display::new();
    let input = Input::new();
    set(&mut cpu, 5, 0b0000_0101);
    run(&mut cpu, &mut display, &input, Instruction::ShiftRight { register: 5 });
    assert_eq!(cpu.register(5), 0b0000_0010);
    assert_eq!(cpu.register(0xF), 1);
    run(&mut cpu, &mut display, &input, Instruction::ShiftRight { register: 5 });
    assert_eq!(cpu.register(5), 0b0000_0001);
    assert_eq!(cpu.register(0xF), 0);
}

#[test]
fn shift_left_moves_the_high_bit_to_the_flag() {
    let mut cpu = CPU::new(&[]);
    let mut display = Display::new();
    let input = Input::new();
    set(&mut cpu, 5, 0b1100_0001);
    run(&mut cpu, &mut display, &input, Instruction::ShiftLeft { register: 5 });
    assert_eq!(cpu.register(5), 0b1000_0010);
    assert_eq!(cpu.register(0xF), 1);
    set(&mut cpu, 5, 0b0100_0001);
    run(&mut cpu, &mut display, &input, Instruction::ShiftLeft { register: 5 });
    assert_eq!(cpu.register(5), 0b1000_0010);
    assert_eq!(cpu.register(0xF), 0);
}

#[test]
fn shifting_the_flag_register_shifts_the_flag() {
    let mut cpu = CPU::new(&[]);
    let mut display = Display::new();
    let input = Input::new();
    set(&mut cpu, 0xF, 0b0000_0011);
    run(&mut cpu, &mut display, &input, Instruction::ShiftRight { register: 0xF });
    assert_eq!(cpu.register(0xF), 0);
    set(&mut cpu, 0xF, 0b1000_0000);
    run(&mut cpu, &mut display, &input, Instruction::ShiftLeft { register: 0xF });
    assert_eq!(cpu.register(0xF), 2);
}

#[test]
fn random_is_masked_with_the_constant() {
    let mut cpu = CPU::new(&[]);
    let mut display = Display::new();
    let input = Input::new();
    let rand = Instruction::Rand { register: 3, value: 0x0F };
    assert_eq!(cpu.execute_instruction(rand, &mut display, &input, 0xAB), Ok(()));
    assert_eq!(cpu.register(3), 0x0B);
    assert_eq!(cpu.instruction_pointer(), 0x202);
    let rand = Instruction::Rand { register: 3, value: 0xF0 };
    assert_eq!(cpu.execute_instruction(rand, &mut display, &input, 0xAB), Ok(()));
    assert_eq!(cpu.register(3), 0xA0);
}

#[test]
fn cycle_with_hands_the_random_byte_to_the_instruction() {
    let mut cpu = CPU::new(&[0xC3, 0x3C]);
    let mut display = Display::new();
    let input = Input::new();
    assert_eq!(cpu.cycle_with(&mut display, &input, 0xFF), Ok(()));
    assert_eq!(cpu.register(3), 0x3C);
}

#[test]
fn cycle_draws_random_bytes_under_the_mask() {
    // 0x200: V3 = random & 0x0F; 0x202: jump to 0x200
    let mut cpu = CPU::new(&[0xC3, 0x0F, 0x12, 0x00]);
    let mut display = Display::new();
    let input = Input::new();
    let mut seen = [false; 16];
    for _ in 0..2000 {
        assert_eq!(cpu.cycle(&mut display, &input), Ok(()));
        assert!(cpu.register(3) <= 0x0F);
        seen[cpu.register(3) as usize] = true;
        assert_eq!(cpu.cycle(&mut display, &input), Ok(()));
    }
    // Two thousand draws of sixteen values: more than one of them has come up.
    assert!(seen.iter().filter(|&&value| value).count() > 1);
}

#[test]
fn cycle_with_mask_zero_gives_zero() {
    let mut cpu = CPU::new(&[0x63, 0x55, 0xC3, 0x00]);
    let mut display = Display::new();
    let input = Input::new();
    assert_eq!(cpu.cycle(&mut display, &input), Ok(()));
    assert_eq!(cpu.register(3), 0x55);
    assert_eq!(cpu.cycle(&mut display, &input), Ok(()));
    assert_eq!(cpu.register(3), 0);
}

#[test]
fn timers_are_set_and_read() {
    let mut cpu = CPU::new(&[]);
    let mut display = Display::new();
    let input = Input::new();
    set(&mut cpu, 1, 42);
    run(&mut cpu, &mut display, &input, Instruction::SetTimer { register: 1 });
    assert_eq!(cpu.delay_timer(), 42);
    assert_eq!(cpu.sound_timer(), 0);
    set(&mut cpu, 1, 7);
    run(&mut cpu, &mut display, &input, Instruction::SetSound { register: 1 });
    assert_eq!(cpu.sound_timer(), 7);
    assert_eq!(cpu.delay_timer(), 42);
    run(&mut cpu, &mut display, &input, Instruction::GetTimer { register: 9 });
    assert_eq!(cpu.register(9), 42);
}

#[test]
fn tick_counts_down_and_stops_at_zero() {
    let mut cpu = CPU::new(&[]);
    let mut display = Display::new();
    let input = Input::new();
    cpu.tick();
    assert_eq!(cpu.delay_timer(), 0);
    assert_eq!(cpu.sound_timer(), 0);
    set(&mut cpu, 1, 5);
    run(&mut cpu, &mut display, &input, Instruction::SetTimer { register: 1 });
    set(&mut cpu, 1, 2);
    run(&mut cpu, &mut display, &input, Instruction::SetSound { register: 1 });
    let at = cpu.instruction_pointer();
    let before = registers(&cpu);
    for n in 1..=8u8 {
        cpu.tick();
        assert_eq!(cpu.delay_timer(), 5u8.saturating_sub(n));
        assert_eq!(cpu.sound_timer(), 2u8.saturating_sub(n));
        assert_eq!(cpu.should_play_sound(), n < 2);
    }
    assert_eq!(cpu.instruction_pointer(), at);
    assert_eq!(registers(&cpu), before);
}

#[test]
fn tick_from_the_highest_value() {
    let mut cpu = CPU::new(&[]);
    let mut display = Display::new();
    let input = Input::new();
    set(&mut cpu, 1, 255);
    run(&mut cpu, &mut display, &input, Instruction::SetTimer { register: 1 });
    for _ in 0..255 {
        assert!(cpu.delay_timer() > 0);
        cpu.tick();
    }
    assert_eq!(cpu.delay_timer(), 0);
    cpu.tick();
    assert_eq!(cpu.delay_timer(), 0);
}

#[test]
fn address_register_is_set_and_added_to() {
    let mut cpu = CPU::new(&[0xA2, 0xF0]);
    let mut display = Display::new();
    let input = Input::new();
    assert_eq!(cpu.cycle(&mut display, &input), Ok(()));
    assert_eq!(cpu.address_register(), 0x2F0);
    set(&mut cpu, 4, 0x20);
    run(&mut cpu, &mut display, &input, Instruction::AddToI { register: 4 });
    assert_eq!(cpu.address_register(), 0x310);
    assert_eq!(cpu.register(0xF), 0);
}

#[test]
fn address_register_may_not_leave_memory() {
    let mut cpu = CPU::new(&[]);
    let mut display = Display::new();
    let input = Input::new();
    run(&mut cpu, &mut display, &input, Instruction::SetI { address: 0xFF0 });
    set(&mut cpu, 4, 0x0F);
    run(&mut cpu, &mut display, &input, Instruction::AddToI { register: 4 });
    assert_eq!(cpu.address_register(), 0xFFF);
    set(&mut cpu, 4, 1);
    let at = cpu.instruction_pointer();
    assert_eq!(
        cpu.execute_instruction(Instruction::AddToI { register: 4 }, &mut display, &input, 0),
        Err(Chip8Error::MemoryOutOfRange)
    );
    assert_eq!(cpu.address_register(), 0xFFF);
    assert_eq!(cpu.instruction_pointer(), at);
}

#[test]
fn font_character_address() {
    let mut cpu = CPU::new(&[]);
    let mut display = Display::new();
    let input = Input::new();
    for digit in 0..=16u8 {
        set(&mut cpu, 6, digit);
        run(&mut cpu, &mut display, &input, Instruction::SetIToFontChar { register: 6 });
        assert_eq!(cpu.address_register(), digit as u16 * 5);
    }
}

#[test]
fn font_character_out_of_range() {
    let mut cpu = CPU::new(&[]);
    let mut display = Display::new();
    let input = Input::new();
    run(&mut cpu, &mut display, &input, Instruction::SetI { address: 0x123 });
    set(&mut cpu, 6, 17);
    let at = cpu.instruction_pointer();
    assert_eq!(
        cpu.execute_instruction(Instruction::SetIToFontChar { register: 6 }, &mut display, &input, 0),
        Err(Chip8Error::InvalidFontIndex)
    );
    assert_eq!(cpu.address_register(), 0x123);
    assert_eq!(cpu.instruction_pointer(), at);
    set(&mut cpu, 6, 255);
    assert_eq!(
        cpu.execute_instruction(Instruction::SetIToFontChar { register: 6 }, &mut display, &input, 0),
        Err(Chip8Error::InvalidFontIndex)
    );
}

#[test]
fn binary_coded_decimal() {
    let mut cpu = CPU::new(&[]);
    let mut display = Display::new();
    let input = Input::new();
    run(&mut cpu, &mut display, &input, Instruction::SetI { address: 0x300 });
    set(&mut cpu, 7, 254);
    run(&mut cpu, &mut display, &input, Instruction::BinaryCodedDecimal { register: 7 });
    assert_eq!(cpu.memory_at(0x300), 2);
    assert_eq!(cpu.memory_at(0x301), 5);
    assert_eq!(cpu.memory_at(0x302), 4);
    assert_eq!(cpu.memory_at(0x2FF), 0);
    assert_eq!(cpu.memory_at(0x303), 0);
    set(&mut cpu, 7, 7);
    run(&mut cpu, &mut display, &input, Instruction::BinaryCodedDecimal { register: 7 });
    assert_eq!(cpu.memory_at(0x300), 0);
    assert_eq!(cpu.memory_at(0x301), 0);
    assert_eq!(cpu.memory_at(0x302), 7);
    assert_eq!(cpu.address_register(), 0x300);
}

#[test]
fn binary_coded_decimal_at_the_end_of_memory() {
    let mut cpu = CPU::new(&[]);
    let mut display = Display::new();
    let input = Input::new();
    set(&mut cpu, 7, 123);
    run(&mut cpu, &mut display, &input, Instruction::SetI { address: 0xFFD });
    run(&mut cpu, &mut display, &input, Instruction::BinaryCodedDecimal { register: 7 });
    assert_eq!(cpu.memory_at(0xFFD), 1);
    assert_eq!(cpu.memory_at(0xFFE), 2);
    assert_eq!(cpu.memory_at(0xFFF), 3);
    run(&mut cpu, &mut display, &input, Instruction::SetI { address: 0xFFE });
    assert_eq!(
        cpu.execute_instruction(Instruction::BinaryCodedDecimal { register: 7 }, &mut display, &input, 0),
        Err(Chip8Error::MemoryOutOfRange)
    );
    assert_eq!(cpu.memory_at(0xFFE), 2);
    assert_eq!(cpu.memory_at(0xFFF), 3);
}

#[test]
fn register_dump_and_load() {
    let mut cpu = CPU::new(&[]);
    let mut display = Display::new();
    let input = Input::new();
    for register in 0..4 {
        set(&mut cpu, register, 0x10 + register);
    }
    run(&mut cpu, &mut display, &input, Instruction::SetI { address: 0x400 });
    run(&mut cpu, &mut display, &input, Instruction::RegisterDump { register: 2 });
    assert_eq!(cpu.memory_at(0x400), 0x10);
    assert_eq!(cpu.memory_at(0x401), 0x11);
    assert_eq!(cpu.memory_at(0x402), 0x12);
    assert_eq!(cpu.memory_at(0x403), 0);
    assert_eq!(cpu.address_register(), 0x400);
    for register in 0..4 {
        set(&mut cpu, register, 0);
    }
    run(&mut cpu, &mut display, &input, Instruction::RegisterLoad { register: 1 });
    assert_eq!(cpu.register(0), 0x10);
    assert_eq!(cpu.register(1), 0x11);
    assert_eq!(cpu.register(2), 0);
    assert_eq!(cpu.address_register(), 0x400);
}

#[test]
fn register_load_reads_the_font() {
    let mut cpu = CPU::new(&[]);
    let mut display = Display::new();
    let input = Input::new();
    run(&mut cpu, &mut display, &input, Instruction::RegisterLoad { register: 0xF });
    assert_eq!(registers(&cpu), FONT[..16].to_vec());
}

#[test]
fn register_dump_may_not_leave_memory() {
    let mut cpu = CPU::new(&[]);
    let mut display = Display::new();
    let input = Input::new();
    set(&mut cpu, 0, 0xAA);
    set(&mut cpu, 1, 0xBB);
    run(&mut cpu, &mut display, &input, Instruction::SetI { address: 0xFFE });
    run(&mut cpu, &mut display, &input, Instruction::RegisterDump { register: 1 });
    assert_eq!(cpu.memory_at(0xFFE), 0xAA);
    assert_eq!(cpu.memory_at(0xFFF), 0xBB);
    run(&mut cpu, &mut display, &input, Instruction::SetI { address: 0xFFF });
    set(&mut cpu, 0, 0xCC);
    assert_eq!(
        cpu.execute_instruction(Instruction::RegisterDump { register: 1 }, &mut display, &input, 0),
        Err(Chip8Error::MemoryOutOfRange)
    );
    assert_eq!(cpu.memory_at(0xFFF), 0xBB);
    assert_eq!(
        cpu.execute_instruction(Instruction::RegisterLoad { register: 1 }, &mut display, &input, 0),
        Err(Chip8Error::MemoryOutOfRange)
    );
    assert_eq!(cpu.register(0), 0xCC);
}

#[test]
fn await_input_waits_for_a_key() {
    let mut cpu = CPU::new(&[0xF5, 0x0A]);
    let mut display = Display::new();
    let mut input = Input::new();
    for _ in 0..5 {
        assert_eq!(cpu.cycle(&mut display, &input), Ok(()));
        assert_eq!(cpu.instruction_pointer(), 0x200);
        assert_eq!(registers(&cpu), vec![0; 16]);
    }
    input.key_pressed(0xC);
    assert_eq!(cpu.cycle(&mut display, &input), Ok(()));
    assert_eq!(cpu.register(5), 0xC);
    assert_eq!(cpu.instruction_pointer(), 0x202);
}

#[test]
fn await_input_takes_the_lowest_key() {
    let mut cpu = CPU::new(&[0xF5, 0x0A]);
    let mut display = Display::new();
    let mut input = Input::new();
    input.key_pressed(0xC);
    input.key_pressed(0x2);
    assert_eq!(cpu.cycle(&mut display, &input), Ok(()));
    assert_eq!(cpu.register(5), 0x2);
}
