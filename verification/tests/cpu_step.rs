//! Per-opcode tests of the fetch-decode-execute cycle.

use chip8::cpu::{CPUIterationDecision, Chip8Error, CPU, V0, VF};

/// A machine with `rom` loaded at 0x200 and the program counter there.
fn boot(rom: &[u8]) -> CPU {
    let mut cpu = CPU::new();
    let loaded = cpu.load_program(&rom.to_vec());
    assert_eq!(loaded, rom.len());
    assert_eq!(cpu.program_counter(), 0x200);
    cpu
}

fn step(cpu: &mut CPU) -> CPUIterationDecision {
    cpu.step_with_random(0).expect("cycle failed")
}

#[test]
fn load_literal_then_read_yields_it() {
    // 6xkk for every register, a few literals each.
    for x in 0..16u8 {
        for &k in &[0x00u8, 0x01, 0x7F, 0xFF] {
            let mut cpu = boot(&[0x60 | x, k]);
            step(&mut cpu);
            assert_eq!(cpu.get_register(x), k);
            assert_eq!(cpu.program_counter(), 0x202);
        }
    }
}

#[test]
fn add_literal_wraps_and_leaves_vf_alone() {
    // 7xkk wraps modulo 256 and does not touch VF.
    let cases = [(200u8, 100u8), (0, 0), (255, 1), (17, 25)];
    for &(a, b) in &cases {
        let mut cpu = boot(&[0x71, b]);
        cpu.set_register(1, a);
        cpu.set_register(VF, 0xEE);
        step(&mut cpu);
        assert_eq!(cpu.get_register(1), a.wrapping_add(b));
        assert_eq!(cpu.get_register(VF), 0xEE);
    }
}

#[test]
fn subtract_with_not_borrow_sets_flag() {
    // 8xy5: Vx = 5, Vy = 3 -> result 2, VF = 1.
    let mut cpu = boot(&[0x81, 0x25]);
    cpu.set_register(1, 5);
    cpu.set_register(2, 3);
    step(&mut cpu);
    assert_eq!(cpu.get_register(1), 2);
    assert_eq!(cpu.get_register(VF), 1);

    // Vx = 3, Vy = 5 -> result (3 - 5) mod 256 = 254, VF = 0.
    let mut cpu = boot(&[0x81, 0x25]);
    cpu.set_register(1, 3);
    cpu.set_register(2, 5);
    step(&mut cpu);
    assert_eq!(cpu.get_register(1), 254);
    assert_eq!(cpu.get_register(VF), 0);
}

#[test]
fn jump_sets_program_counter_exactly() {
    // 0x1ABC -> program counter 0x0ABC, no further advance this cycle.
    let mut cpu = boot(&[0x1A, 0xBC]);
    step(&mut cpu);
    assert_eq!(cpu.program_counter(), 0x0ABC);
}

#[test]
fn call_then_return_round_trip() {
    // CALL 0x300 from 0x200 pushes 0x200 and jumps; RET restores both.
    let mut rom = vec![0x23u8, 0x00];
    rom.resize(0x102, 0);
    rom[0x100] = 0x00;
    rom[0x101] = 0xEE;  // RET at 0x300
    let mut cpu = boot(&rom);
    step(&mut cpu);
    assert_eq!(cpu.program_counter(), 0x300);
    assert_eq!(cpu.stack_pointer(), 1);
    step(&mut cpu);
    assert_eq!(cpu.program_counter(), 0x200);
    assert_eq!(cpu.stack_pointer(), 0);
}

#[test]
fn font_sprite_addressing() {
    // Fx29 with register value 0xA points I at 0xA * 5 = 50, where the
    // glyph for digit A lies.
    let mut cpu = boot(&[0xF1, 0x29]);
    cpu.set_register(1, 0xA);
    step(&mut cpu);
    assert_eq!(cpu.memory_location(), 50);
    assert_eq!(&cpu.memory()[50..55], &[0xF0, 0x90, 0xF0, 0x90, 0x90]);
}

#[test]
fn font_sprite_addressing_uses_low_nibble() {
    // Only the low four bits of the register select the digit.
    let mut cpu = boot(&[0xF1, 0x29]);
    cpu.set_register(1, 0xFA);
    step(&mut cpu);
    assert_eq!(cpu.memory_location(), 50);
}

#[test]
fn binary_coded_decimal() {
    // Register value 234 writes digits 2, 3, 4 at I, I+1, I+2 and leaves
    // the source register alone.
    let mut cpu = boot(&[0xA3, 0x00, 0xF2, 0x33]);
    cpu.set_register(2, 234);
    step(&mut cpu);
    assert_eq!(cpu.memory_location(), 0x300);
    step(&mut cpu);
    assert_eq!(cpu.memory()[0x300], 2);
    assert_eq!(cpu.memory()[0x301], 3);
    assert_eq!(cpu.memory()[0x302], 4);
    assert_eq!(cpu.get_register(2), 234);
}

#[test]
fn skip_if_equal_literal() {
    let mut cpu = boot(&[0x31, 0x42]);
    cpu.set_register(1, 0x42);
    step(&mut cpu);
    assert_eq!(cpu.program_counter(), 0x204);

    let mut cpu = boot(&[0x31, 0x42]);
    cpu.set_register(1, 0x41);
    step(&mut cpu);
    assert_eq!(cpu.program_counter(), 0x202);
}

#[test]
fn skip_if_not_equal_literal() {
    let mut cpu = boot(&[0x41, 0x42]);
    cpu.set_register(1, 0x42);
    step(&mut cpu);
    assert_eq!(cpu.program_counter(), 0x202);

    let mut cpu = boot(&[0x41, 0x42]);
    cpu.set_register(1, 0x00);
    step(&mut cpu);
    assert_eq!(cpu.program_counter(), 0x204);
}

#[test]
fn skip_on_register_compare() {
    let mut cpu = boot(&[0x51, 0x20]);
    cpu.set_register(1, 9);
    cpu.set_register(2, 9);
    step(&mut cpu);
    assert_eq!(cpu.program_counter(), 0x204);

    let mut cpu = boot(&[0x91, 0x20]);
    cpu.set_register(1, 9);
    cpu.set_register(2, 9);
    step(&mut cpu);
    assert_eq!(cpu.program_counter(), 0x202);
}

#[test]
fn copy_and_bitwise_and() {
    let mut cpu = boot(&[0x81, 0x20, 0x83, 0x42]);
    cpu.set_register(2, 0x5A);
    step(&mut cpu);
    assert_eq!(cpu.get_register(1), 0x5A);
    cpu.set_register(3, 0b1100_1100);
    cpu.set_register(4, 0b1010_1010);
    step(&mut cpu);
    assert_eq!(cpu.get_register(3), 0b1000_1000);
}

#[test]
fn random_byte_is_masked() {
    // Cxkk stores the random byte ANDed with the mask.
    let mut cpu = boot(&[0xC0, 0xF0]);
    cpu.step_with_random(0xAB).unwrap();
    assert_eq!(cpu.get_register(V0), 0xA0);

    // Through the real generator the mask still holds.
    let mut cpu = boot(&[0xC0, 0x0F]);
    cpu.fetch_decode_execute().unwrap();
    assert_eq!(cpu.get_register(V0) & 0xF0, 0);
}

#[test]
fn add_register_to_index() {
    let mut cpu = boot(&[0xA1, 0x00, 0xF2, 0x1E]);
    cpu.set_register(2, 0x34);
    step(&mut cpu);
    step(&mut cpu);
    assert_eq!(cpu.memory_location(), 0x134);
}

#[test]
fn block_copy_registers_to_memory_inclusive() {
    // Fx55 copies V0..=Vx, inclusive of Vx.
    let mut cpu = boot(&[0xA3, 0x00, 0xF2, 0x55]);
    cpu.set_register(0, 10);
    cpu.set_register(1, 11);
    cpu.set_register(2, 12);
    cpu.set_register(3, 13);
    step(&mut cpu);
    step(&mut cpu);
    assert_eq!(cpu.memory()[0x300], 10);
    assert_eq!(cpu.memory()[0x301], 11);
    assert_eq!(cpu.memory()[0x302], 12);
    // V3 is past the named register and must not be copied.
    assert_eq!(cpu.memory()[0x303], 0xFF);
}

#[test]
fn block_read_registers_from_memory_inclusive() {
    // Fx65 reads V0..=Vx, leaving the higher registers alone.
    let mut cpu = boot(&[0xA2, 0x04, 0xF1, 0x65, 0x21, 0x22]);
    cpu.set_register(2, 99);
    step(&mut cpu);
    step(&mut cpu);
    assert_eq!(cpu.get_register(0), 0x21);
    assert_eq!(cpu.get_register(1), 0x22);
    assert_eq!(cpu.get_register(2), 99);
}

#[test]
fn delay_timer_set_and_read_back() {
    // Fx15 sets the delay timer; Fx07 reads it back.
    let mut cpu = boot(&[0xF1, 0x15, 0xF2, 0x07]);
    cpu.set_register(1, 42);
    step(&mut cpu);
    step(&mut cpu);
    assert_eq!(cpu.get_register(2), 42);
}

#[test]
fn wait_for_key_suspends_until_a_key_arrives() {
    let mut cpu = boot(&[0xF5, 0x0A]);
    step(&mut cpu);
    assert_eq!(cpu.program_counter(), 0x200);
    // Still waiting: stepping without a key changes nothing.
    step(&mut cpu);
    assert_eq!(cpu.program_counter(), 0x200);
    cpu.set_key_pressed(Some(7));
    step(&mut cpu);
    assert_eq!(cpu.get_register(5), 7);
    assert_eq!(cpu.program_counter(), 0x202);
}

#[test]
fn skip_if_key_pressed() {
    let mut cpu = boot(&[0xE1, 0x9E]);
    cpu.set_register(1, 4);
    cpu.set_key_pressed(Some(4));
    step(&mut cpu);
    assert_eq!(cpu.program_counter(), 0x204);

    let mut cpu = boot(&[0xE1, 0x9E]);
    cpu.set_register(1, 4);
    cpu.set_key_pressed(Some(5));
    step(&mut cpu);
    assert_eq!(cpu.program_counter(), 0x202);
}

#[test]
fn skip_if_key_not_pressed() {
    let mut cpu = boot(&[0xE1, 0xA1]);
    cpu.set_register(1, 4);
    step(&mut cpu);
    assert_eq!(cpu.program_counter(), 0x204);

    let mut cpu = boot(&[0xE1, 0xA1]);
    cpu.set_register(1, 4);
    cpu.set_key_pressed(Some(4));
    step(&mut cpu);
    assert_eq!(cpu.program_counter(), 0x202);
}

#[test]
fn invalid_key_code_counts_as_no_key() {
    let mut cpu = boot(&[0xE1, 0xA1]);
    cpu.set_register(1, 20);
    cpu.set_key_pressed(Some(20));
    step(&mut cpu);
    // The out-of-range key was discarded, so "not pressed" skips.
    assert_eq!(cpu.program_counter(), 0x204);
}

#[test]
fn unrecognized_opcode_is_fatal_and_names_the_address() {
    let mut cpu = boot(&[0x00, 0x00]);
    let err = cpu.step_with_random(0).unwrap_err();
    assert_eq!(err, Chip8Error::UnrecognizedOpcode { opcode: 0x0000, address: 0x200 });
    // The state stays inspectable and untouched.
    assert_eq!(cpu.program_counter(), 0x200);
}

#[test]
fn stack_underflow_is_fatal() {
    let mut cpu = boot(&[0x00, 0xEE]);
    let err = cpu.step_with_random(0).unwrap_err();
    assert_eq!(err, Chip8Error::StackUnderflow { address: 0x200 });
    assert_eq!(cpu.stack_pointer(), 0);
}

#[test]
fn stack_overflow_is_fatal_past_sixteen_calls() {
    // 0x2200 calls 0x200 over and over.
    let mut cpu = boot(&[0x22, 0x00]);
    for depth in 1..=16u8 {
        step(&mut cpu);
        assert_eq!(cpu.stack_pointer(), depth);
    }
    let err = cpu.step_with_random(0).unwrap_err();
    assert_eq!(err, Chip8Error::StackOverflow { address: 0x200 });
    assert_eq!(cpu.stack_pointer(), 16);
}

#[test]
fn memory_out_of_bounds_is_fatal() {
    // LD I, 0xFFF then a two-row draw would read past memory.
    let mut cpu = boot(&[0xAF, 0xFF, 0xD0, 0x02]);
    step(&mut cpu);
    let err = cpu.step_with_random(0).unwrap_err();
    assert_eq!(err, Chip8Error::MemoryOutOfBounds { address: 0x202, index: 0xFFF });
}

#[test]
fn program_counter_out_of_range_is_fatal() {
    let mut cpu = boot(&[0x1F, 0xFF]);
    step(&mut cpu);
    assert_eq!(cpu.program_counter(), 0xFFF);
    let err = cpu.step_with_random(0).unwrap_err();
    assert_eq!(err, Chip8Error::ProgramCounterOutOfBounds { address: 0xFFF });
}

#[test]
fn registers_snapshot_matches() {
    let mut cpu = CPU::new();
    cpu.set_register(3, 7);
    cpu.set_register(15, 1);
    let regs = cpu.registers();
    assert_eq!(regs.len(), 16);
    assert_eq!(regs[3], 7);
    assert_eq!(regs[15], 1);
    assert_eq!(regs[0], 0);
}

#[test]
fn load_program_truncates_to_available_memory() {
    let mut cpu = CPU::new();
    let image = vec![0xABu8; 4000];
    let loaded = cpu.load_program(&image);
    assert_eq!(loaded, 3584);
    assert_eq!(cpu.program_counter(), 0x200);
    assert_eq!(cpu.memory()[0x200], 0xAB);
    assert_eq!(cpu.memory()[4095], 0xAB);
}
