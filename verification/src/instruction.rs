//! Decoding of 16-bit CHIP-8 opcodes into instruction values.
//!
//! Decoding is a pure function over the opcode's four 4-bit nibbles, high
//! nibble first.  Every opcode either matches exactly one pattern below or is
//! reported as unrecognized; nothing is ever silently mis-decoded.

use vstd::prelude::*;

verus! {

/// A decoded CHIP-8 instruction.
///
/// Register operands are always register indices in `0..16`; address
/// operands are always 12-bit values in `0..4096`; sprite lengths are
/// nibbles in `0..16`.  [`parse_instruction`] guarantees these bounds
/// (see [`inst_wf`]).
#[derive(Clone, Copy, Debug, PartialEq, Eq, Structural)]
pub enum Instruction {
    /// `1nnn` - jump to address `nnn`.
    JP(u16),
    /// `00E0` - clear the screen.
    CLS,
    /// `00EE` - return from a subroutine.
    RET,
    /// `2nnn` - call the subroutine at `nnn`.
    CALL(u16),
    /// `3xkk` - skip the next instruction if `Vx == kk`.
    SE(u8, u8),
    /// `5xy0` - skip the next instruction if `Vx == Vy`.
    SEVxVy(u8, u8),
    /// `9xy0` - skip the next instruction if `Vx != Vy`.
    SNEVxVy(u8, u8),
    /// `4xkk` - skip the next instruction if `Vx != kk`.
    SNE(u8, u8),
    /// `6xkk` - load the literal `kk` into `Vx`.
    LD(u8, u8),
    /// `Cxkk` - load a random byte masked by `kk` into `Vx`.
    RND(u8, u8),
    /// `Annn` - load the address `nnn` into the index register.
    LDI(u16),
    /// `Fx33` - write the binary-coded-decimal digits of `Vx` to memory at
    /// the index register.
    LDB(u8),
    /// `8xy0` - copy `Vy` into `Vx`.
    LDVxFromVy(u8, u8),
    /// `Fx65` - read registers `V0..=Vx` from memory starting at the index
    /// register.
    LDVxFromI(u8),
    /// `Fx0A` - wait for a key press, then store the key value in `Vx`.
    LDVxFromK(u8),
    /// `Fx55` - copy registers `V0..=Vx` into memory starting at the index
    /// register.
    LDIFromVx(u8),
    /// `Fx15` - set the delay timer from `Vx`.
    LDDTFromVx(u8),
    /// `Fx18` - set the sound timer from `Vx`.
    LDSTFromVx(u8),
    /// `Fx07` - copy the delay timer into `Vx`.
    LDVxFromDT(u8),
    /// `Fx29` - point the index register at the font sprite for the low
    /// nibble of `Vx`.
    LDF(u8),
    /// `Dxyn` - draw an `n`-byte sprite at `(Vx, Vy)`, setting `VF` on
    /// collision.
    DRW(u8, u8, u8),
    /// `7xkk` - add the literal `kk` to `Vx`, wrapping, without touching
    /// `VF`.
    ADD(u8, u8),
    /// Halt execution.  A deliberate extension outside the historical opcode
    /// space, reserved for test and termination use; no 16-bit encoding
    /// decodes to it.
    HLT,
    /// `8xy2` - bitwise AND of `Vx` and `Vy` into `Vx`.
    AND(u8, u8),
    /// `Fx1E` - add `Vx` to the index register.
    ADDIVx(u8),
    /// `Ex9E` - skip the next instruction if the key `Vx` is pressed.
    SKP(u8),
    /// `ExA1` - skip the next instruction if the key `Vx` is not pressed.
    SKNP(u8),
    /// `8xy5` - subtract `Vy` from `Vx` with a not-borrow flag in `VF`.
    SUB(u8, u8),
}

/// The outcome of decoding one opcode.
#[derive(Clone, Copy, Debug, PartialEq, Eq, Structural)]
pub enum InstructionParseResult {
    /// The opcode matched a known pattern.
    Parsed(Instruction),
    /// The opcode matched no known pattern.
    Unparsed,
}

/// The high nibble of an opcode, which selects the pattern family.
pub open spec fn op_high(op: u16) -> u16 {
    op / 4096
}

/// The register index taken from bits 8..12 of an opcode (the `x` operand).
pub open spec fn op_x(op: u16) -> u8 {
    ((op / 256) % 16) as u8
}

/// The register index taken from bits 4..8 of an opcode (the `y` operand).
pub open spec fn op_y(op: u16) -> u8 {
    ((op / 16) % 16) as u8
}

/// The 8-bit literal held in the low byte of an opcode (the `kk` operand).
pub open spec fn op_kk(op: u16) -> u8 {
    (op % 256) as u8
}

/// The 12-bit address held in the low three nibbles of an opcode.
pub open spec fn op_nnn(op: u16) -> u16 {
    (op % 4096) as u16
}

/// The low nibble of an opcode (the `n` operand).
pub open spec fn op_n(op: u16) -> u8 {
    (op % 16) as u8
}

/// The mask-and-shift field extraction of the executable decoder computes
/// the same nibbles that the quotient-and-remainder specifications name.
pub proof fn lemma_op_field_masks(op: u16)
    by (bit_vector)
    ensures
        (op >> 12) == op / 4096,
        (op >> 8) & 0xF == (op / 256) % 16,
        (op >> 4) & 0xF == (op / 16) % 16,
        op & 0xFF == op % 256,
        op & 0xFFF == op % 4096,
        op & 0xF == op % 16,
{
}

/// The meaning of the `8xyN` opcode family, selected by the low nibble.
pub open spec fn parse_8_spec(op: u16) -> InstructionParseResult {
    let x = op_x(op);
    let y = op_y(op);
    if op_n(op) == 0 {
        InstructionParseResult::Parsed(Instruction::LDVxFromVy(x, y))
    } else if op_n(op) == 2 {
        InstructionParseResult::Parsed(Instruction::AND(x, y))
    } else if op_n(op) == 5 {
        InstructionParseResult::Parsed(Instruction::SUB(x, y))
    } else {
        InstructionParseResult::Unparsed
    }
}

/// The meaning of the `Fxnn` opcode family, selected by the low byte.
pub open spec fn parse_f_spec(op: u16) -> InstructionParseResult {
    let x = op_x(op);
    if op_kk(op) == 0x07 {
        InstructionParseResult::Parsed(Instruction::LDVxFromDT(x))
    } else if op_kk(op) == 0x0A {
        InstructionParseResult::Parsed(Instruction::LDVxFromK(x))
    } else if op_kk(op) == 0x15 {
        InstructionParseResult::Parsed(Instruction::LDDTFromVx(x))
    } else if op_kk(op) == 0x18 {
        InstructionParseResult::Parsed(Instruction::LDSTFromVx(x))
    } else if op_kk(op) == 0x1E {
        InstructionParseResult::Parsed(Instruction::ADDIVx(x))
    } else if op_kk(op) == 0x29 {
        InstructionParseResult::Parsed(Instruction::LDF(x))
    } else if op_kk(op) == 0x33 {
        InstructionParseResult::Parsed(Instruction::LDB(x))
    } else if op_kk(op) == 0x65 {
        InstructionParseResult::Parsed(Instruction::LDVxFromI(x))
    } else if op_kk(op) == 0x55 {
        InstructionParseResult::Parsed(Instruction::LDIFromVx(x))
    } else {
        InstructionParseResult::Unparsed
    }
}

/// The meaning of every 16-bit opcode: the decoded instruction, or
/// `Unparsed` where no pattern of the instruction set matches.
pub open spec fn parse_spec(op: u16) -> InstructionParseResult {
    if op == 0x00E0 {
        InstructionParseResult::Parsed(Instruction::CLS)
    } else if op == 0x00EE {
        InstructionParseResult::Parsed(Instruction::RET)
    } else {
        let high = op_high(op);
        if high == 0x1 {
            InstructionParseResult::Parsed(Instruction::JP(op_nnn(op)))
        } else if high == 0x2 {
            InstructionParseResult::Parsed(Instruction::CALL(op_nnn(op)))
        } else if high == 0x3 {
            InstructionParseResult::Parsed(Instruction::SE(op_x(op), op_kk(op)))
        } else if high == 0x4 {
            InstructionParseResult::Parsed(Instruction::SNE(op_x(op), op_kk(op)))
        } else if high == 0x5 && op_n(op) == 0 {
            InstructionParseResult::Parsed(Instruction::SEVxVy(op_x(op), op_y(op)))
        } else if high == 0x6 {
            InstructionParseResult::Parsed(Instruction::LD(op_x(op), op_kk(op)))
        } else if high == 0x7 {
            InstructionParseResult::Parsed(Instruction::ADD(op_x(op), op_kk(op)))
        } else if high == 0x8 {
            parse_8_spec(op)
        } else if high == 0x9 && op_n(op) == 0 {
            InstructionParseResult::Parsed(Instruction::SNEVxVy(op_x(op), op_y(op)))
        } else if high == 0xA {
            InstructionParseResult::Parsed(Instruction::LDI(op_nnn(op)))
        } else if high == 0xC {
            InstructionParseResult::Parsed(Instruction::RND(op_x(op), op_kk(op)))
        } else if high == 0xD {
            InstructionParseResult::Parsed(Instruction::DRW(op_x(op), op_y(op), op_n(op)))
        } else if high == 0xE && op_kk(op) == 0x9E {
            InstructionParseResult::Parsed(Instruction::SKP(op_x(op)))
        } else if high == 0xE && op_kk(op) == 0xA1 {
            InstructionParseResult::Parsed(Instruction::SKNP(op_x(op)))
        } else if high == 0xF {
            parse_f_spec(op)
        } else {
            InstructionParseResult::Unparsed
        }
    }
}

/// Well-formedness of a decoded instruction: register operands lie in
/// `0..16`, addresses in `0..4096`, sprite lengths in `0..16`.
pub open spec fn inst_wf(inst: Instruction) -> bool {
    match inst {
        Instruction::JP(a) => a < 4096,
        Instruction::CLS => true,
        Instruction::RET => true,
        Instruction::CALL(a) => a < 4096,
        Instruction::SE(x, _) => x < 16,
        Instruction::SEVxVy(x, y) => x < 16 && y < 16,
        Instruction::SNEVxVy(x, y) => x < 16 && y < 16,
        Instruction::SNE(x, _) => x < 16,
        Instruction::LD(x, _) => x < 16,
        Instruction::RND(x, _) => x < 16,
        Instruction::LDI(a) => a < 4096,
        Instruction::LDB(x) => x < 16,
        Instruction::LDVxFromVy(x, y) => x < 16 && y < 16,
        Instruction::LDVxFromI(x) => x < 16,
        Instruction::LDVxFromK(x) => x < 16,
        Instruction::LDIFromVx(x) => x < 16,
        Instruction::LDDTFromVx(x) => x < 16,
        Instruction::LDSTFromVx(x) => x < 16,
        Instruction::LDVxFromDT(x) => x < 16,
        Instruction::LDF(x) => x < 16,
        Instruction::DRW(x, y, n) => x < 16 && y < 16 && n < 16,
        Instruction::ADD(x, _) => x < 16,
        Instruction::HLT => true,
        Instruction::AND(x, y) => x < 16 && y < 16,
        Instruction::ADDIVx(x) => x < 16,
        Instruction::SKP(x) => x < 16,
        Instruction::SKNP(x) => x < 16,
        Instruction::SUB(x, y) => x < 16 && y < 16,
    }
}

/// Every instruction the decoder accepts is well formed.
pub proof fn lemma_parse_spec_wf(op: u16)
    ensures
        parse_spec(op) matches InstructionParseResult::Parsed(inst) ==> inst_wf(inst),
{
    lemma_op_field_masks(op);
}

/// The `x` operand of an opcode, extracted in executable code.
fn x_of(op: u16) -> (r: u8)
    ensures
        r == op_x(op),
        r < 16,
{
    proof {
        lemma_op_field_masks(op);
    }
    ((op >> 8) & 0xF) as u8
}

/// The `y` operand of an opcode, extracted in executable code.
fn y_of(op: u16) -> (r: u8)
    ensures
        r == op_y(op),
        r < 16,
{
    proof {
        lemma_op_field_masks(op);
    }
    ((op >> 4) & 0xF) as u8
}

/// The `kk` operand of an opcode, extracted in executable code.
fn kk_of(op: u16) -> (r: u8)
    ensures
        r == op_kk(op),
{
    proof {
        lemma_op_field_masks(op);
    }
    (op & 0xFF) as u8
}

/// Decodes the `8xyN` arithmetic and logic family.
fn parse_8_instruction(op: u16) -> (r: InstructionParseResult)
    ensures
        r == parse_8_spec(op),
{
    let x = x_of(op);
    let y = y_of(op);
    let kind = {
        proof {
            lemma_op_field_masks(op);
        }
        (op & 0xF) as u8
    };
    match kind {
        0 => InstructionParseResult::Parsed(Instruction::LDVxFromVy(x, y)),
        2 => InstructionParseResult::Parsed(Instruction::AND(x, y)),
        5 => InstructionParseResult::Parsed(Instruction::SUB(x, y)),
        _ => InstructionParseResult::Unparsed,
    }
}

/// Decodes the `Fxnn` family.
fn parse_f_instruction(op: u16) -> (r: InstructionParseResult)
    ensures
        r == parse_f_spec(op),
{
    let x = x_of(op);
    let low = kk_of(op);
    if low == 0x07 {
        return InstructionParseResult::Parsed(Instruction::LDVxFromDT(x));
    }
    if low == 0x0A {
        return InstructionParseResult::Parsed(Instruction::LDVxFromK(x));
    }
    if low == 0x15 {
        return InstructionParseResult::Parsed(Instruction::LDDTFromVx(x));
    }
    if low == 0x18 {
        return InstructionParseResult::Parsed(Instruction::LDSTFromVx(x));
    }
    if low == 0x1E {
        return InstructionParseResult::Parsed(Instruction::ADDIVx(x));
    }
    if low == 0x29 {
        return InstructionParseResult::Parsed(Instruction::LDF(x));
    }
    if low == 0x33 {
        return InstructionParseResult::Parsed(Instruction::LDB(x));
    }
    if low == 0x65 {
        return InstructionParseResult::Parsed(Instruction::LDVxFromI(x));
    }
    if low == 0x55 {
        return InstructionParseResult::Parsed(Instruction::LDIFromVx(x));
    }
    InstructionParseResult::Unparsed
}

/// Decodes one 16-bit opcode.
///
/// The result is exactly [`parse_spec`] of the opcode, and any decoded
/// instruction is well formed in the sense of [`inst_wf`].
pub fn parse_instruction(op: u16) -> (r: InstructionParseResult)
    ensures
        r == parse_spec(op),
        r matches InstructionParseResult::Parsed(inst) ==> inst_wf(inst),
{
    proof {
        lemma_parse_spec_wf(op);
        lemma_op_field_masks(op);
    }
    if op == 0x00E0 {
        return InstructionParseResult::Parsed(Instruction::CLS);
    }
    if op == 0x00EE {
        return InstructionParseResult::Parsed(Instruction::RET);
    }
    let high = op >> 12;
    let n = {
        proof {
            lemma_op_field_masks(op);
        }
        (op & 0xF) as u8
    };
    match high {
        0x1 => InstructionParseResult::Parsed(Instruction::JP(op & 0xFFF)),
        0x2 => InstructionParseResult::Parsed(Instruction::CALL(op & 0xFFF)),
        0x3 => InstructionParseResult::Parsed(Instruction::SE(x_of(op), kk_of(op))),
        0x4 => InstructionParseResult::Parsed(Instruction::SNE(x_of(op), kk_of(op))),
        0x5 => {
            if n == 0 {
                InstructionParseResult::Parsed(Instruction::SEVxVy(x_of(op), y_of(op)))
            } else {
                InstructionParseResult::Unparsed
            }
        },
        0x6 => InstructionParseResult::Parsed(Instruction::LD(x_of(op), kk_of(op))),
        0x7 => InstructionParseResult::Parsed(Instruction::ADD(x_of(op), kk_of(op))),
        0x8 => parse_8_instruction(op),
        0x9 => {
            if n == 0 {
                InstructionParseResult::Parsed(Instruction::SNEVxVy(x_of(op), y_of(op)))
            } else {
                InstructionParseResult::Unparsed
            }
        },
        0xA => InstructionParseResult::Parsed(Instruction::LDI(op & 0xFFF)),
        0xC => InstructionParseResult::Parsed(Instruction::RND(x_of(op), kk_of(op))),
        0xD => InstructionParseResult::Parsed(Instruction::DRW(x_of(op), y_of(op), n)),
        0xE => {
            let low = kk_of(op);
            if low == 0x9E {
                InstructionParseResult::Parsed(Instruction::SKP(x_of(op)))
            } else if low == 0xA1 {
                InstructionParseResult::Parsed(Instruction::SKNP(x_of(op)))
            } else {
                InstructionParseResult::Unparsed
            }
        },
        0xF => parse_f_instruction(op),
        _ => InstructionParseResult::Unparsed,
    }
}

} // verus!
