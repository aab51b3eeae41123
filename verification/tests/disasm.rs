//! Tests for the disassembler and its listing formats.

use chip8::cpu::Chip8Error;
use chip8::disassembler::{
    disassemble, full_lines, hex_dump_lines, instruction_lines, instruction_text,
};
use chip8::instruction::Instruction;

#[test]
fn disassembles_a_short_program() {
    let bytes = vec![0x60, 0x05, 0xA2, 0x02, 0xD0, 0x05, 0x12, 0x00];
    let instructions = disassemble(&bytes).unwrap();
    assert_eq!(
        instructions,
        vec![
            Instruction::LD(0, 5),
            Instruction::LDI(0x202),
            Instruction::DRW(0, 0, 5),
            Instruction::JP(0x200),
        ]
    );
}

#[test]
fn disassemble_reports_the_first_bad_opcode() {
    let bytes = vec![0x60, 0x05, 0x00, 0x00, 0x60, 0x06];
    let err = disassemble(&bytes).unwrap_err();
    assert_eq!(err, Chip8Error::UnrecognizedOpcode { opcode: 0x0000, address: 0x202 });
}

#[test]
fn disassemble_ignores_an_odd_trailing_byte() {
    let bytes = vec![0x00, 0xE0, 0x99];
    let instructions = disassemble(&bytes).unwrap();
    assert_eq!(instructions, vec![Instruction::CLS]);
}

#[test]
fn instruction_text_formats() {
    assert_eq!(instruction_text(&Instruction::JP(0xABC)), "JP (ABC)");
    assert_eq!(instruction_text(&Instruction::CLS), "CLS");
    assert_eq!(instruction_text(&Instruction::RET), "RET");
    assert_eq!(instruction_text(&Instruction::CALL(0x345)), "CALL (345)");
    assert_eq!(instruction_text(&Instruction::SE(0xA, 0x42)), "SE (VA, 42)");
    assert_eq!(instruction_text(&Instruction::SEVxVy(1, 2)), "SE (V1, V2)");
    assert_eq!(instruction_text(&Instruction::SNEVxVy(3, 4)), "SNE (V3, V4)");
    assert_eq!(instruction_text(&Instruction::SNE(5, 0x07)), "SNE (V5, 07)");
    assert_eq!(instruction_text(&Instruction::LD(0xC, 0xFF)), "LD (VC, FF)");
    assert_eq!(instruction_text(&Instruction::RND(7, 0x0F)), "RND (V7, 0F)");
    assert_eq!(instruction_text(&Instruction::LDI(0x123)), "LD (I, 123)");
    assert_eq!(instruction_text(&Instruction::LDB(2)), "LD (B, V2)");
    assert_eq!(instruction_text(&Instruction::LDVxFromVy(1, 2)), "LD (V1, V2)");
    assert_eq!(instruction_text(&Instruction::LDVxFromI(3)), "LD (V3, I)");
    assert_eq!(instruction_text(&Instruction::LDVxFromK(4)), "LD (V4, K)");
    assert_eq!(instruction_text(&Instruction::LDIFromVx(5)), "LD (I, V5)");
    assert_eq!(instruction_text(&Instruction::LDDTFromVx(6)), "LD (DT, V6)");
    assert_eq!(instruction_text(&Instruction::LDSTFromVx(7)), "LD (ST, V7)");
    assert_eq!(instruction_text(&Instruction::LDVxFromDT(8)), "LD (V8, DT)");
    assert_eq!(instruction_text(&Instruction::LDF(9)), "LD (F, V9)");
    assert_eq!(instruction_text(&Instruction::DRW(1, 2, 5)), "DRW (V1, V2, 5)");
    assert_eq!(instruction_text(&Instruction::ADD(1, 0xA0)), "ADD (V1, A0)");
    assert_eq!(instruction_text(&Instruction::HLT), "HLT");
    assert_eq!(instruction_text(&Instruction::AND(1, 2)), "AND (V1, V2)");
    assert_eq!(instruction_text(&Instruction::ADDIVx(3)), "ADD (I, V3)");
    assert_eq!(instruction_text(&Instruction::SKP(4)), "SKP (V4)");
    assert_eq!(instruction_text(&Instruction::SKNP(5)), "SKNP (V5)");
    assert_eq!(instruction_text(&Instruction::SUB(6, 7)), "SUB (V6, V7)");
}

#[test]
fn hex_dump_lines_with_addresses() {
    let bytes = vec![0x60, 0x05, 0xA2, 0x02, 0x99];
    let lines = hex_dump_lines(&bytes, true);
    assert_eq!(lines, vec!["200 - 6005", "202 - A202", "204 - 99"]);
}

#[test]
fn hex_dump_lines_without_addresses() {
    let bytes = vec![0x60, 0x05, 0xA2, 0x02];
    let lines = hex_dump_lines(&bytes, false);
    assert_eq!(lines, vec!["6005", "A202"]);
}

#[test]
fn instruction_lines_listing() {
    let instructions = vec![Instruction::LD(0, 5), Instruction::JP(0x200)];
    let lines = instruction_lines(&instructions, true);
    assert_eq!(lines, vec!["200 - LD (V0, 05)", "202 - JP (200)"]);
    let bare = instruction_lines(&instructions, false);
    assert_eq!(bare, vec!["LD (V0, 05)", "JP (200)"]);
}

#[test]
fn full_lines_listing() {
    let bytes = vec![0x60, 0x05, 0x12, 0x00];
    let lines = full_lines(&bytes, true).unwrap();
    assert_eq!(lines, vec!["200 - 6005 - LD (V0, 05)", "202 - 1200 - JP (200)"]);
    let bare = full_lines(&bytes, false).unwrap();
    assert_eq!(bare, vec!["6005 - LD (V0, 05)", "1200 - JP (200)"]);
}

#[test]
fn full_lines_propagates_decode_failure() {
    let bytes = vec![0x60, 0x05, 0xFF, 0xFF];
    let err = full_lines(&bytes, true).unwrap_err();
    assert_eq!(err, Chip8Error::UnrecognizedOpcode { opcode: 0xFFFF, address: 0x202 });
}
