//! Black-box scenarios: small programs run cycle by cycle through the
//! public driver interface.

use chip8::cpu::{CPUIterationDecision, CPU, VF};

#[test]
fn draw_loop_scenario() {
    // 6005: V0 = 5; A202: I = 0x202; D005: draw a 5-byte sprite at
    // (V0, V0); 1200: jump back to the start.
    let rom = vec![0x60, 0x05, 0xA2, 0x02, 0xD0, 0x05, 0x12, 0x00];
    let mut cpu = CPU::new();
    cpu.load_program(&rom);

    cpu.step_with_random(0).unwrap();
    assert_eq!(cpu.get_register(0), 5);
    assert_eq!(cpu.program_counter(), 0x202);

    cpu.step_with_random(0).unwrap();
    assert_eq!(cpu.memory_location(), 0x202);
    assert_eq!(cpu.program_counter(), 0x204);

    cpu.step_with_random(0).unwrap();
    assert_eq!(cpu.program_counter(), 0x206);
    // The sprite bytes are the program's own bytes at 0x202..0x207:
    // A2 02 D0 05 12, drawn at (5, 5).  Top row: 1010_0010.
    assert!(cpu.screen().get_pixel(5, 5));
    assert!(!cpu.screen().get_pixel(6, 5));
    assert!(cpu.screen().get_pixel(7, 5));
    assert!(!cpu.screen().get_pixel(8, 5));
    assert!(cpu.screen().get_pixel(11, 5));
    // A fresh screen has no collision.
    assert_eq!(cpu.get_register(VF), 0);

    cpu.step_with_random(0).unwrap();
    assert_eq!(cpu.program_counter(), 0x200);

    // Around the loop again: the identical draw erases everything and
    // reports the collision in VF.
    cpu.step_with_random(0).unwrap();
    cpu.step_with_random(0).unwrap();
    cpu.step_with_random(0).unwrap();
    assert_eq!(cpu.get_register(VF), 1);
    for y in 0..32 {
        for x in 0..64 {
            assert!(!cpu.screen().get_pixel(x, y));
        }
    }
}

#[test]
fn counting_loop_scenario() {
    // V1 counts to 3: 6100 (V1 = 0), 7101 (V1 += 1), 3103 (skip if
    // V1 == 3), 1202 (back to the add), 00E0 (clear screen when done).
    let rom = vec![0x61, 0x00, 0x71, 0x01, 0x31, 0x03, 0x12, 0x02, 0x00, 0xE0];
    let mut cpu = CPU::new();
    cpu.load_program(&rom);
    let mut steps = 0;
    while cpu.program_counter() != 0x20A {
        let decision = cpu.step_with_random(0).unwrap();
        assert!(matches!(decision, CPUIterationDecision::Continue));
        steps += 1;
        assert!(steps < 100, "loop never terminated");
    }
    assert_eq!(cpu.get_register(1), 3);
}

#[test]
fn render_after_steps() {
    // V0 = 63, I = 0x200, draw the byte at I at (V0, V1) = (63, 0).
    let rom = vec![0x60, 0x3F, 0xA2, 0x00, 0xD0, 0x11];
    let mut cpu = CPU::new();
    cpu.load_program(&rom);
    cpu.step_with_random(0).unwrap();
    cpu.step_with_random(0).unwrap();
    cpu.step_with_random(0).unwrap();
    // The byte at 0x200 is 0x60 = 0110_0000: its leftmost bit lands dark
    // on column 63, the two lit bits wrap around to columns 0 and 1.
    let mut frame = vec![0u8; 64 * 32 * 4];
    assert!(cpu.render(&mut frame));
    let lit = |frame: &Vec<u8>, x: usize, y: usize| frame[(y * 64 + x) * 4] == 0xFF;
    assert!(!lit(&frame, 63, 0));
    assert!(lit(&frame, 0, 0));
    assert!(lit(&frame, 1, 0));
    assert!(!lit(&frame, 2, 0));
    // Nothing changed since: the renderer skips.
    assert!(!cpu.render(&mut frame));
}
