//! Tests for the instruction decoder.

use chip8::instruction::{parse_instruction, Instruction, InstructionParseResult};

fn decode(op: u16) -> Instruction {
    match parse_instruction(op) {
        InstructionParseResult::Parsed(inst) => inst,
        InstructionParseResult::Unparsed => panic!("opcode {:04X} did not decode", op),
    }
}

fn unparsed(op: u16) -> bool {
    matches!(parse_instruction(op), InstructionParseResult::Unparsed)
}

#[test]
fn decodes_whole_opcode_literals() {
    assert_eq!(decode(0x00E0), Instruction::CLS);
    assert_eq!(decode(0x00EE), Instruction::RET);
}

#[test]
fn decodes_jump_and_call() {
    assert_eq!(decode(0x1ABC), Instruction::JP(0x0ABC));
    assert_eq!(decode(0x2345), Instruction::CALL(0x0345));
}

#[test]
fn decodes_skip_literal_forms() {
    assert_eq!(decode(0x3A42), Instruction::SE(0xA, 0x42));
    assert_eq!(decode(0x4B99), Instruction::SNE(0xB, 0x99));
}

#[test]
fn decodes_skip_register_forms() {
    assert_eq!(decode(0x5120), Instruction::SEVxVy(1, 2));
    assert_eq!(decode(0x9340), Instruction::SNEVxVy(3, 4));
    // The register-compare skips require a zero low nibble.
    assert!(unparsed(0x5121));
    assert!(unparsed(0x9345));
}

#[test]
fn decodes_load_and_add_literals() {
    assert_eq!(decode(0x6C17), Instruction::LD(0xC, 0x17));
    assert_eq!(decode(0x7DFF), Instruction::ADD(0xD, 0xFF));
}

#[test]
fn decodes_arithmetic_family() {
    assert_eq!(decode(0x8120), Instruction::LDVxFromVy(1, 2));
    assert_eq!(decode(0x8342), Instruction::AND(3, 4));
    assert_eq!(decode(0x8565), Instruction::SUB(5, 6));
    // The rest of the 8xyN family is not recognized, never mis-decoded.
    assert!(unparsed(0x8121));
    assert!(unparsed(0x8123));
    assert!(unparsed(0x8124));
    assert!(unparsed(0x8126));
    assert!(unparsed(0x8127));
    assert!(unparsed(0x812E));
}

#[test]
fn decodes_index_random_and_draw() {
    assert_eq!(decode(0xA123), Instruction::LDI(0x0123));
    assert_eq!(decode(0xC742), Instruction::RND(7, 0x42));
    assert_eq!(decode(0xD125), Instruction::DRW(1, 2, 5));
    assert_eq!(decode(0xDAB0), Instruction::DRW(0xA, 0xB, 0));
}

#[test]
fn decodes_key_skips() {
    assert_eq!(decode(0xE19E), Instruction::SKP(1));
    assert_eq!(decode(0xE2A1), Instruction::SKNP(2));
    assert!(unparsed(0xE199));
}

#[test]
fn decodes_f_family() {
    assert_eq!(decode(0xF107), Instruction::LDVxFromDT(1));
    assert_eq!(decode(0xF20A), Instruction::LDVxFromK(2));
    assert_eq!(decode(0xF315), Instruction::LDDTFromVx(3));
    assert_eq!(decode(0xF418), Instruction::LDSTFromVx(4));
    assert_eq!(decode(0xF51E), Instruction::ADDIVx(5));
    assert_eq!(decode(0xF629), Instruction::LDF(6));
    assert_eq!(decode(0xF733), Instruction::LDB(7));
    assert_eq!(decode(0xF855), Instruction::LDIFromVx(8));
    assert_eq!(decode(0xF965), Instruction::LDVxFromI(9));
    assert!(unparsed(0xF1FF));
}

#[test]
fn rejects_unknown_opcodes() {
    assert!(unparsed(0x0000));
    assert!(unparsed(0x0123));
    assert!(unparsed(0xB123));
    assert!(unparsed(0x00E1));
}
