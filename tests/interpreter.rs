use chip8::clock::{advance, run_due, Clock, Due};
use chip8::decode::{decode, get_kk, get_nnn, get_x, get_y, parse_op_code, Instruction};
use chip8::execute::{execute_op_code, press_key, release_key, step, step_with};
use chip8::machine::{
    get_op_code, load_rom_to_memory, pop_from_stack, push_to_stack, sound_active, tick_timers,
    Emulator, ExecError,
};

fn machine_with(program: &[u8]) -> Emulator {
    let mut emulator = Emulator::new();
    load_rom_to_memory(&mut emulator, program).unwrap();
    emulator
}

fn run(emulator: &mut Emulator, word: u16) -> Result<(), ExecError> {
    execute_op_code(emulator, decode(word), 0)
}

#[test]
fn new_machine_is_zeroed() {
    let emulator = Emulator::new();
    assert_eq!(emulator.program_counter, 0x200);
    assert_eq!(emulator.v_registers, vec![0u8; 16]);
    assert_eq!(emulator.stack_pointer, 0);
    assert_eq!(emulator.ram.len(), 4096);
    assert!(emulator.ram.iter().all(|b| *b == 0));
    assert_eq!(emulator.pixels.len(), 64 * 32);
    assert!(emulator.pixels.iter().all(|p| !*p));
    assert_eq!(emulator.awaiting_key, None);
}

#[test]
fn load_copies_image_at_start_address() {
    let emulator = machine_with(&[0xAB, 0xCD, 0xEF]);
    assert_eq!(&emulator.ram[0x200..0x203], &[0xAB, 0xCD, 0xEF]);
    assert_eq!(emulator.ram[0x1FF], 0);
    assert_eq!(emulator.ram[0x203], 0);
}

#[test]
fn load_accepts_image_filling_memory() {
    let mut emulator = Emulator::new();
    let image = vec![7u8; 4096 - 0x200];
    assert_eq!(load_rom_to_memory(&mut emulator, &image), Ok(()));
    assert_eq!(emulator.ram[4095], 7);
}

#[test]
fn load_refuses_oversized_image() {
    let mut emulator = Emulator::new();
    let image = vec![7u8; 4096 - 0x200 + 1];
    assert_eq!(
        load_rom_to_memory(&mut emulator, &image),
        Err(ExecError::ProgramImageTooLarge)
    );
    assert!(emulator.ram.iter().all(|b| *b == 0));
}

#[test]
fn fetch_reads_high_byte_first() {
    let emulator = machine_with(&[0x12, 0x34]);
    assert_eq!(get_op_code(&emulator), 0x1234);
}

#[test]
fn nibble_helpers() {
    let op = parse_op_code(0xD12F);
    assert_eq!(op, (0xD, 0x1, 0x2, 0xF));
    assert_eq!(get_x(op), 1);
    assert_eq!(get_y(op), 2);
    assert_eq!(get_kk(op), 0x2F);
    assert_eq!(get_nnn(op), 0x12F);
}

#[test]
fn field_helpers_ignore_unread_nibbles() {
    assert_eq!(get_nnn((99, 1, 2, 3)), 0x123);
    assert_eq!(get_kk((99, 99, 0xA, 0xB)), 0xAB);
}

#[test]
fn decode_covers_instruction_set() {
    assert_eq!(decode(0x00E0), Instruction::Cls);
    assert_eq!(decode(0x00EE), Instruction::Ret);
    assert_eq!(decode(0x0123), Instruction::Sys { nnn: 0x123 });
    assert_eq!(decode(0x1ABC), Instruction::Jump { nnn: 0xABC });
    assert_eq!(decode(0x2ABC), Instruction::Call { nnn: 0xABC });
    assert_eq!(decode(0x3A12), Instruction::SkipEqImm { x: 0xA, kk: 0x12 });
    assert_eq!(decode(0x4A12), Instruction::SkipNeImm { x: 0xA, kk: 0x12 });
    assert_eq!(decode(0x5AB0), Instruction::SkipEqReg { x: 0xA, y: 0xB });
    assert_eq!(decode(0x6A12), Instruction::LoadImm { x: 0xA, kk: 0x12 });
    assert_eq!(decode(0x7A12), Instruction::AddImm { x: 0xA, kk: 0x12 });
    assert_eq!(decode(0x8AB0), Instruction::Copy { x: 0xA, y: 0xB });
    assert_eq!(decode(0x8AB1), Instruction::Or { x: 0xA, y: 0xB });
    assert_eq!(decode(0x8AB2), Instruction::And { x: 0xA, y: 0xB });
    assert_eq!(decode(0x8AB3), Instruction::Xor { x: 0xA, y: 0xB });
    assert_eq!(decode(0x8AB4), Instruction::AddReg { x: 0xA, y: 0xB });
    assert_eq!(decode(0x8AB5), Instruction::Sub { x: 0xA, y: 0xB });
    assert_eq!(decode(0x8AB6), Instruction::ShiftRight { x: 0xA, y: 0xB });
    assert_eq!(decode(0x8AB7), Instruction::SubReversed { x: 0xA, y: 0xB });
    assert_eq!(decode(0x8ABE), Instruction::ShiftLeft { x: 0xA, y: 0xB });
    assert_eq!(decode(0x9AB0), Instruction::SkipNeReg { x: 0xA, y: 0xB });
    assert_eq!(decode(0xA123), Instruction::LoadIndex { nnn: 0x123 });
    assert_eq!(decode(0xB123), Instruction::JumpOffset { nnn: 0x123 });
    assert_eq!(decode(0xC1FF), Instruction::Random { x: 1, kk: 0xFF });
    assert_eq!(decode(0xD125), Instruction::Draw { x: 1, y: 2, n: 5 });
    assert_eq!(decode(0xE19E), Instruction::SkipKeyPressed { x: 1 });
    assert_eq!(decode(0xE1A1), Instruction::SkipKeyNotPressed { x: 1 });
    assert_eq!(decode(0xF107), Instruction::LoadDelay { x: 1 });
    assert_eq!(decode(0xF10A), Instruction::WaitKey { x: 1 });
    assert_eq!(decode(0xF115), Instruction::SetDelay { x: 1 });
    assert_eq!(decode(0xF118), Instruction::SetSound { x: 1 });
    assert_eq!(decode(0xF11E), Instruction::AddIndex { x: 1 });
    assert_eq!(decode(0xF129), Instruction::LoadFont { x: 1 });
    assert_eq!(decode(0xF133), Instruction::StoreBcd { x: 1 });
    assert_eq!(decode(0xF155), Instruction::StoreRegs { x: 1 });
    assert_eq!(decode(0xF165), Instruction::LoadRegs { x: 1 });
}

#[test]
fn decode_keeps_unknown_words() {
    assert_eq!(decode(0x5AB1), Instruction::Unknown { word: 0x5AB1 });
    assert_eq!(decode(0x8AB8), Instruction::Unknown { word: 0x8AB8 });
    assert_eq!(decode(0xE100), Instruction::Unknown { word: 0xE100 });
    assert_eq!(decode(0xFFFF), Instruction::Unknown { word: 0xFFFF });
}

#[test]
fn unknown_opcode_halts_and_leaves_state() {
    let mut emulator = Emulator::new();
    assert_eq!(run(&mut emulator, 0xFFFF), Err(ExecError::UnknownOpcode(0xFFFF)));
    assert_eq!(emulator.program_counter, 0x200);
}

#[test]
fn add_sets_carry() {
    let mut emulator = Emulator::new();
    emulator.v_registers[1] = 200;
    emulator.v_registers[2] = 100;
    run(&mut emulator, 0x8124).unwrap();
    assert_eq!(emulator.v_registers[1], 44);
    assert_eq!(emulator.v_registers[15], 1);
    emulator.v_registers[1] = 100;
    emulator.v_registers[2] = 155;
    run(&mut emulator, 0x8124).unwrap();
    assert_eq!(emulator.v_registers[1], 255);
    assert_eq!(emulator.v_registers[15], 0);
}

#[test]
fn add_flag_overrides_target_register_fifteen() {
    let mut emulator = Emulator::new();
    emulator.v_registers[15] = 200;
    emulator.v_registers[1] = 100;
    run(&mut emulator, 0x8F14).unwrap();
    assert_eq!(emulator.v_registers[15], 1);
}

#[test]
fn sub_sets_no_borrow_flag() {
    let mut emulator = Emulator::new();
    emulator.v_registers[1] = 10;
    emulator.v_registers[2] = 3;
    run(&mut emulator, 0x8125).unwrap();
    assert_eq!(emulator.v_registers[1], 7);
    assert_eq!(emulator.v_registers[15], 1);
    emulator.v_registers[1] = 3;
    emulator.v_registers[2] = 10;
    run(&mut emulator, 0x8125).unwrap();
    assert_eq!(emulator.v_registers[1], 249);
    assert_eq!(emulator.v_registers[15], 0);
    emulator.v_registers[1] = 5;
    emulator.v_registers[2] = 5;
    run(&mut emulator, 0x8125).unwrap();
    assert_eq!(emulator.v_registers[1], 0);
    assert_eq!(emulator.v_registers[15], 1);
}

#[test]
fn reversed_sub_swaps_operands() {
    let mut emulator = Emulator::new();
    emulator.v_registers[1] = 3;
    emulator.v_registers[2] = 10;
    run(&mut emulator, 0x8127).unwrap();
    assert_eq!(emulator.v_registers[1], 7);
    assert_eq!(emulator.v_registers[15], 1);
    emulator.v_registers[1] = 10;
    emulator.v_registers[2] = 3;
    run(&mut emulator, 0x8127).unwrap();
    assert_eq!(emulator.v_registers[1], 249);
    assert_eq!(emulator.v_registers[15], 0);
}

#[test]
fn shifts_put_shifted_out_bit_in_flag() {
    let mut emulator = Emulator::new();
    emulator.v_registers[3] = 0b1000_0101;
    run(&mut emulator, 0x8306).unwrap();
    assert_eq!(emulator.v_registers[3], 0b0100_0010);
    assert_eq!(emulator.v_registers[15], 1);
    emulator.v_registers[3] = 0b1000_0101;
    run(&mut emulator, 0x830E).unwrap();
    assert_eq!(emulator.v_registers[3], 0b0000_1010);
    assert_eq!(emulator.v_registers[15], 1);
    emulator.v_registers[3] = 0b0100_0000;
    run(&mut emulator, 0x830E).unwrap();
    assert_eq!(emulator.v_registers[3], 0b1000_0000);
    assert_eq!(emulator.v_registers[15], 0);
    run(&mut emulator, 0x8306).unwrap();
    assert_eq!(emulator.v_registers[3], 0b0100_0000);
    assert_eq!(emulator.v_registers[15], 0);
}

#[test]
fn bitwise_and_copy() {
    let mut emulator = Emulator::new();
    emulator.v_registers[1] = 0b1100;
    emulator.v_registers[2] = 0b1010;
    run(&mut emulator, 0x8121).unwrap();
    assert_eq!(emulator.v_registers[1], 0b1110);
    emulator.v_registers[1] = 0b1100;
    run(&mut emulator, 0x8122).unwrap();
    assert_eq!(emulator.v_registers[1], 0b1000);
    emulator.v_registers[1] = 0b1100;
    run(&mut emulator, 0x8123).unwrap();
    assert_eq!(emulator.v_registers[1], 0b0110);
    run(&mut emulator, 0x8120).unwrap();
    assert_eq!(emulator.v_registers[1], 0b1010);
}

#[test]
fn add_immediate_wraps_without_flag() {
    let mut emulator = Emulator::new();
    emulator.v_registers[4] = 250;
    run(&mut emulator, 0x740A).unwrap();
    assert_eq!(emulator.v_registers[4], 4);
    assert_eq!(emulator.v_registers[15], 0);
    assert_eq!(emulator.program_counter, 0x202);
}

#[test]
fn skips_advance_by_four() {
    let mut emulator = Emulator::new();
    emulator.v_registers[1] = 0x12;
    run(&mut emulator, 0x3112).unwrap();
    assert_eq!(emulator.program_counter, 0x204);
    run(&mut emulator, 0x3113).unwrap();
    assert_eq!(emulator.program_counter, 0x206);
    run(&mut emulator, 0x4113).unwrap();
    assert_eq!(emulator.program_counter, 0x20A);
    emulator.v_registers[2] = 0x12;
    run(&mut emulator, 0x5120).unwrap();
    assert_eq!(emulator.program_counter, 0x20E);
    run(&mut emulator, 0x9120).unwrap();
    assert_eq!(emulator.program_counter, 0x210);
}

#[test]
fn jumps() {
    let mut emulator = Emulator::new();
    run(&mut emulator, 0x1ABC).unwrap();
    assert_eq!(emulator.program_counter, 0xABC);
    emulator.v_registers[0] = 0x10;
    run(&mut emulator, 0xB300).unwrap();
    assert_eq!(emulator.program_counter, 0x310);
}

#[test]
fn call_then_return_restores_counter() {
    let mut emulator = Emulator::new();
    run(&mut emulator, 0x2400).unwrap();
    assert_eq!(emulator.program_counter, 0x400);
    assert_eq!(emulator.stack_pointer, 1);
    run(&mut emulator, 0x00EE).unwrap();
    assert_eq!(emulator.program_counter, 0x202);
    assert_eq!(emulator.stack_pointer, 0);
}

#[test]
fn nested_calls_to_capacity_then_overflow() {
    let mut emulator = Emulator::new();
    let mut expected = Vec::new();
    for depth in 0..16u16 {
        expected.push(emulator.program_counter + 2);
        run(&mut emulator, 0x2300 + depth * 2).unwrap();
    }
    assert_eq!(emulator.stack_pointer, 16);
    assert_eq!(run(&mut emulator, 0x2500), Err(ExecError::StackOverflow));
    assert_eq!(emulator.stack_pointer, 16);
    for _ in 0..16 {
        run(&mut emulator, 0x00EE).unwrap();
        assert_eq!(emulator.program_counter, expected.pop().unwrap());
    }
    assert_eq!(run(&mut emulator, 0x00EE), Err(ExecError::StackUnderflow));
}

#[test]
fn return_on_empty_stack_underflows() {
    let mut emulator = Emulator::new();
    assert_eq!(run(&mut emulator, 0x00EE), Err(ExecError::StackUnderflow));
    assert_eq!(emulator.program_counter, 0x200);
}

#[test]
fn stack_push_and_pop() {
    let mut emulator = Emulator::new();
    assert_eq!(pop_from_stack(&mut emulator), Err(ExecError::StackUnderflow));
    push_to_stack(&mut emulator, 0x222).unwrap();
    push_to_stack(&mut emulator, 0x333).unwrap();
    assert_eq!(pop_from_stack(&mut emulator), Ok(0x333));
    assert_eq!(emulator.stack[1], 0);
    assert_eq!(pop_from_stack(&mut emulator), Ok(0x222));
    for k in 0..16u16 {
        push_to_stack(&mut emulator, k).unwrap();
    }
    assert_eq!(push_to_stack(&mut emulator, 99), Err(ExecError::StackOverflow));
}

#[test]
fn index_register_instructions() {
    let mut emulator = Emulator::new();
    run(&mut emulator, 0xAFFE).unwrap();
    assert_eq!(emulator.i_register, 0xFFE);
    emulator.v_registers[2] = 5;
    run(&mut emulator, 0xF21E).unwrap();
    assert_eq!(emulator.i_register, 0x1003);
    assert_eq!(emulator.v_registers[15], 0);
    emulator.v_registers[2] = 0x1A;
    run(&mut emulator, 0xF229).unwrap();
    assert_eq!(emulator.i_register, 50);
}

#[test]
fn decimal_digits_of_255_and_7() {
    let mut emulator = Emulator::new();
    run(&mut emulator, 0xA300).unwrap();
    emulator.v_registers[5] = 255;
    run(&mut emulator, 0xF533).unwrap();
    assert_eq!(&emulator.ram[0x300..0x303], &[2, 5, 5]);
    emulator.v_registers[5] = 7;
    run(&mut emulator, 0xF533).unwrap();
    assert_eq!(&emulator.ram[0x300..0x303], &[0, 0, 7]);
}

#[test]
fn decimal_digits_past_memory_end() {
    let mut emulator = Emulator::new();
    run(&mut emulator, 0xAFFE).unwrap();
    assert_eq!(run(&mut emulator, 0xF533), Err(ExecError::AddressOutOfRange));
    assert_eq!(emulator.ram[0xFFE], 0);
}

#[test]
fn store_and_load_registers() {
    let mut emulator = Emulator::new();
    for k in 0..16u8 {
        emulator.v_registers[k as usize] = k + 1;
    }
    run(&mut emulator, 0xA400).unwrap();
    run(&mut emulator, 0xF355).unwrap();
    assert_eq!(&emulator.ram[0x400..0x405], &[1, 2, 3, 4, 0]);
    assert_eq!(emulator.i_register, 0x400);
    emulator.ram[0x400] = 9;
    emulator.ram[0x401] = 8;
    run(&mut emulator, 0xF165).unwrap();
    assert_eq!(&emulator.v_registers[0..3], &[9, 8, 3]);
    run(&mut emulator, 0xAFFF).unwrap();
    assert_eq!(run(&mut emulator, 0xF155), Err(ExecError::AddressOutOfRange));
    assert_eq!(run(&mut emulator, 0xF065), Ok(()));
}

#[test]
fn random_is_masked() {
    let mut emulator = Emulator::new();
    execute_op_code(&mut emulator, decode(0xC30F), 0xAB).unwrap();
    assert_eq!(emulator.v_registers[3], 0x0B);
    let mut emulator = machine_with(&[0xC3, 0x00]);
    step(&mut emulator).unwrap();
    assert_eq!(emulator.v_registers[3], 0);
    let mut emulator = machine_with(&[0xC3, 0x0F]);
    step(&mut emulator).unwrap();
    assert!(emulator.v_registers[3] <= 0x0F);
}

#[test]
fn draw_sets_pixels_and_collision() {
    let mut emulator = Emulator::new();
    emulator.ram[0x300] = 0b1100_0000;
    run(&mut emulator, 0xA300).unwrap();
    emulator.v_registers[0] = 2;
    emulator.v_registers[1] = 3;
    run(&mut emulator, 0xD011).unwrap();
    assert!(emulator.pixels[3 * 64 + 2]);
    assert!(emulator.pixels[3 * 64 + 3]);
    assert!(!emulator.pixels[3 * 64 + 4]);
    assert_eq!(emulator.pixels.iter().filter(|p| **p).count(), 2);
    assert_eq!(emulator.v_registers[15], 0);
    run(&mut emulator, 0xD011).unwrap();
    assert!(emulator.pixels.iter().all(|p| !*p));
    assert_eq!(emulator.v_registers[15], 1);
}

#[test]
fn draw_twice_restores_pixels() {
    let mut emulator = Emulator::new();
    emulator.ram[0x300] = 0xF0;
    emulator.ram[0x301] = 0x90;
    emulator.ram[0x302] = 0xF0;
    emulator.pixels[10 * 64 + 21] = true;
    emulator.pixels[0] = true;
    let before = emulator.pixels.clone();
    run(&mut emulator, 0xA300).unwrap();
    emulator.v_registers[0] = 20;
    emulator.v_registers[1] = 10;
    run(&mut emulator, 0xD013).unwrap();
    assert_eq!(emulator.v_registers[15], 1);
    run(&mut emulator, 0xD013).unwrap();
    assert_eq!(emulator.pixels, before);
    assert_eq!(emulator.v_registers[15], 1);
}

#[test]
fn draw_wraps_around_edges() {
    let mut emulator = Emulator::new();
    emulator.ram[0x300] = 0xFF;
    emulator.ram[0x301] = 0x80;
    run(&mut emulator, 0xA300).unwrap();
    emulator.v_registers[0] = 60 + 64;
    emulator.v_registers[1] = 31;
    run(&mut emulator, 0xD012).unwrap();
    for x in [60usize, 61, 62, 63, 0, 1, 2, 3] {
        assert!(emulator.pixels[31 * 64 + x]);
    }
    assert!(emulator.pixels[60]);
    assert_eq!(emulator.pixels.iter().filter(|p| **p).count(), 9);
}

#[test]
fn draw_past_memory_end() {
    let mut emulator = Emulator::new();
    run(&mut emulator, 0xAFFE).unwrap();
    assert_eq!(run(&mut emulator, 0xD013), Err(ExecError::AddressOutOfRange));
    assert_eq!(emulator.i_register, 0xFFE);
    assert_eq!(run(&mut emulator, 0xD012), Ok(()));
}

#[test]
fn clear_screen() {
    let mut emulator = Emulator::new();
    emulator.pixels[5] = true;
    emulator.pixels[2047] = true;
    run(&mut emulator, 0x00E0).unwrap();
    assert!(emulator.pixels.iter().all(|p| !*p));
    assert_eq!(emulator.program_counter, 0x202);
}

#[test]
fn key_skips() {
    let mut emulator = Emulator::new();
    emulator.v_registers[2] = 0x7;
    run(&mut emulator, 0xE29E).unwrap();
    assert_eq!(emulator.program_counter, 0x202);
    run(&mut emulator, 0xE2A1).unwrap();
    assert_eq!(emulator.program_counter, 0x206);
    press_key(&mut emulator, 7);
    run(&mut emulator, 0xE29E).unwrap();
    assert_eq!(emulator.program_counter, 0x20A);
    run(&mut emulator, 0xE2A1).unwrap();
    assert_eq!(emulator.program_counter, 0x20C);
    release_key(&mut emulator, 7);
    assert!(!emulator.keys[7]);
}

#[test]
fn wait_for_key_suspends_until_press() {
    let mut emulator = machine_with(&[0xF4, 0x0A, 0x61, 0x01]);
    step_with(&mut emulator, 0).unwrap();
    assert_eq!(emulator.awaiting_key, Some(4));
    assert_eq!(emulator.program_counter, 0x202);
    step_with(&mut emulator, 0).unwrap();
    assert_eq!(emulator.program_counter, 0x202);
    assert_eq!(emulator.v_registers[1], 0);
    press_key(&mut emulator, 0xB);
    assert_eq!(emulator.awaiting_key, None);
    assert_eq!(emulator.v_registers[4], 0xB);
    step_with(&mut emulator, 0).unwrap();
    assert_eq!(emulator.v_registers[1], 1);
}

#[test]
fn timer_registers() {
    let mut emulator = Emulator::new();
    emulator.v_registers[1] = 3;
    run(&mut emulator, 0xF115).unwrap();
    run(&mut emulator, 0xF118).unwrap();
    assert_eq!(emulator.delay_timer, 3);
    assert!(sound_active(&emulator));
    tick_timers(&mut emulator);
    run(&mut emulator, 0xF207).unwrap();
    assert_eq!(emulator.v_registers[2], 2);
    tick_timers(&mut emulator);
    tick_timers(&mut emulator);
    tick_timers(&mut emulator);
    assert_eq!(emulator.delay_timer, 0);
    assert_eq!(emulator.sound_timer, 0);
    assert!(!sound_active(&emulator));
}

#[test]
fn end_to_end_add_program() {
    let mut emulator = machine_with(&[0x60, 0x0A, 0x61, 0x05, 0x80, 0x14]);
    for _ in 0..3 {
        step_with(&mut emulator, 0).unwrap();
    }
    assert_eq!(emulator.v_registers[0], 15);
    assert_eq!(emulator.v_registers[15], 0);
    assert_eq!(emulator.program_counter, 0x200 + 6);
}

#[test]
fn fetch_past_memory_end_halts() {
    let mut emulator = Emulator::new();
    run(&mut emulator, 0x1FFF).unwrap();
    assert_eq!(step_with(&mut emulator, 0), Err(ExecError::AddressOutOfRange));
    assert_eq!(emulator.program_counter, 0xFFF);
}

#[test]
fn clock_counts_whole_periods() {
    let mut clock = Clock::new(1000, 500);
    let due = advance(&mut clock, 10);
    assert_eq!(due, Due { instructions: 5, timer_ticks: 0 });
    assert_eq!(clock.timer_remainder, 600);
    let due = advance(&mut clock, 10);
    assert_eq!(due, Due { instructions: 5, timer_ticks: 1 });
    assert_eq!(clock.timer_remainder, 200);
}

#[test]
fn clock_does_not_drift_with_slicing() {
    let mut sliced = Clock::new(1_000_000, 700);
    let mut ticks = 0u128;
    let mut instructions = 0u128;
    for _ in 0..1000 {
        let due = advance(&mut sliced, 1000);
        ticks += due.timer_ticks;
        instructions += due.instructions;
    }
    let mut whole = Clock::new(1_000_000, 700);
    let due = advance(&mut whole, 1_000_000);
    assert_eq!(ticks, 60);
    assert_eq!(due.timer_ticks, 60);
    assert_eq!(instructions, 700);
    assert_eq!(due.instructions, 700);
    assert_eq!(sliced.timer_remainder, whole.timer_remainder);
}

#[test]
fn delay_timer_reaches_zero_after_six_ticks() {
    // V0 = 5; delay = V0; then spin on a jump to itself.
    for rate in [0u64, 1, 60, 6000] {
        let mut emulator = machine_with(&[0x60, 0x05, 0xF0, 0x15, 0x12, 0x04]);
        step_with(&mut emulator, 0).unwrap();
        step_with(&mut emulator, 0).unwrap();
        assert_eq!(emulator.delay_timer, 5);
        let mut clock = Clock::new(60 * 100, rate);
        for tick in 1..=6u8 {
            let due = advance(&mut clock, 100);
            assert_eq!(due.timer_ticks, 1);
            run_due(&mut emulator, due).unwrap();
            assert_eq!(emulator.delay_timer, 5u8.saturating_sub(tick));
        }
        assert_eq!(emulator.delay_timer, 0);
        assert_eq!(emulator.program_counter, 0x204);
    }
}
