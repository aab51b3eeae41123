//! Disassembly of raw CHIP-8 program bytes into instruction values and
//! printable text lines.
//!
//! The bytes are read two at a time, big-endian, exactly as the fetch of
//! the interpreter reads them, and each pair is decoded with the same
//! [`crate::instruction::parse_spec`] the interpreter obeys.  Addresses in
//! the listings count from `0x200`, the load address of a program.  The
//! host program only writes the finished lines to a file.

use crate::cpu::{opcode_at, Chip8Error};
use crate::instruction::{inst_wf, parse_instruction, parse_spec, Instruction, InstructionParseResult};
use vstd::prelude::*;
use vstd::string::StringExecFns;

verus! {

/// The hexadecimal digit character for a value in `0..16`, upper case.
pub open spec fn hex_char(d: int) -> char {
    if d == 0 {
        '0'
    } else if d == 1 {
        '1'
    } else if d == 2 {
        '2'
    } else if d == 3 {
        '3'
    } else if d == 4 {
        '4'
    } else if d == 5 {
        '5'
    } else if d == 6 {
        '6'
    } else if d == 7 {
        '7'
    } else if d == 8 {
        '8'
    } else if d == 9 {
        '9'
    } else if d == 10 {
        'A'
    } else if d == 11 {
        'B'
    } else if d == 12 {
        'C'
    } else if d == 13 {
        'D'
    } else if d == 14 {
        'E'
    } else {
        'F'
    }
}

/// One hexadecimal digit.
pub open spec fn hex1(v: int) -> Seq<char> {
    seq![hex_char(v)]
}

/// Two hexadecimal digits (a byte).
pub open spec fn hex2(v: int) -> Seq<char> {
    seq![hex_char(v / 16), hex_char(v % 16)]
}

/// Three hexadecimal digits (a 12-bit address).
pub open spec fn hex3(v: int) -> Seq<char> {
    seq![hex_char(v / 256), hex_char((v / 16) % 16), hex_char(v % 16)]
}

/// Four hexadecimal digits (an opcode).
pub open spec fn hex4(v: int) -> Seq<char> {
    seq![hex_char(v / 4096), hex_char((v / 256) % 16), hex_char((v / 16) % 16), hex_char(v % 16)]
}

/// The printable text of one decoded instruction, mirroring the mnemonic
/// style of the instruction set: `JP (1A2)`, `LD (V3, FF)`, `DRW (V1, V2, 5)`.
pub open spec fn instruction_text_spec(inst: Instruction) -> Seq<char> {
    match inst {
        Instruction::JP(a) => "JP ("@ + hex3(a as int) + ")"@,
        Instruction::CLS => "CLS"@,
        Instruction::RET => "RET"@,
        Instruction::CALL(a) => "CALL ("@ + hex3(a as int) + ")"@,
        Instruction::SE(x, kk) => "SE (V"@ + hex1(x as int) + ", "@ + hex2(kk as int) + ")"@,
        Instruction::SEVxVy(x, y) => "SE (V"@ + hex1(x as int) + ", V"@ + hex1(y as int) + ")"@,
        Instruction::SNEVxVy(x, y) => "SNE (V"@ + hex1(x as int) + ", V"@ + hex1(y as int) + ")"@,
        Instruction::SNE(x, kk) => "SNE (V"@ + hex1(x as int) + ", "@ + hex2(kk as int) + ")"@,
        Instruction::LD(x, kk) => "LD (V"@ + hex1(x as int) + ", "@ + hex2(kk as int) + ")"@,
        Instruction::RND(x, kk) => "RND (V"@ + hex1(x as int) + ", "@ + hex2(kk as int) + ")"@,
        Instruction::LDI(a) => "LD (I, "@ + hex3(a as int) + ")"@,
        Instruction::LDB(x) => "LD (B, V"@ + hex1(x as int) + ")"@,
        Instruction::LDVxFromVy(x, y) => "LD (V"@ + hex1(x as int) + ", V"@ + hex1(y as int) + ")"@,
        Instruction::LDVxFromI(x) => "LD (V"@ + hex1(x as int) + ", I)"@,
        Instruction::LDVxFromK(x) => "LD (V"@ + hex1(x as int) + ", K)"@,
        Instruction::LDIFromVx(x) => "LD (I, V"@ + hex1(x as int) + ")"@,
        Instruction::LDDTFromVx(x) => "LD (DT, V"@ + hex1(x as int) + ")"@,
        Instruction::LDSTFromVx(x) => "LD (ST, V"@ + hex1(x as int) + ")"@,
        Instruction::LDVxFromDT(x) => "LD (V"@ + hex1(x as int) + ", DT)"@,
        Instruction::LDF(x) => "LD (F, V"@ + hex1(x as int) + ")"@,
        Instruction::DRW(x, y, n) => "DRW (V"@ + hex1(x as int) + ", V"@ + hex1(y as int) + ", "@
            + hex1(n as int) + ")"@,
        Instruction::ADD(x, kk) => "ADD (V"@ + hex1(x as int) + ", "@ + hex2(kk as int) + ")"@,
        Instruction::HLT => "HLT"@,
        Instruction::AND(x, y) => "AND (V"@ + hex1(x as int) + ", V"@ + hex1(y as int) + ")"@,
        Instruction::ADDIVx(x) => "ADD (I, V"@ + hex1(x as int) + ")"@,
        Instruction::SKP(x) => "SKP (V"@ + hex1(x as int) + ")"@,
        Instruction::SKNP(x) => "SKNP (V"@ + hex1(x as int) + ")"@,
        Instruction::SUB(x, y) => "SUB (V"@ + hex1(x as int) + ", V"@ + hex1(y as int) + ")"@,
    }
}

/// Appends the hexadecimal digit for `d` to `s`.
fn push_hex_digit(s: &mut String, d: u8)
    requires
        d < 16,
    ensures
        final(s)@ == old(s)@ + hex1(d as int),
{
    match d {
        0 => s.append("0"),
        1 => s.append("1"),
        2 => s.append("2"),
        3 => s.append("3"),
        4 => s.append("4"),
        5 => s.append("5"),
        6 => s.append("6"),
        7 => s.append("7"),
        8 => s.append("8"),
        9 => s.append("9"),
        10 => s.append("A"),
        11 => s.append("B"),
        12 => s.append("C"),
        13 => s.append("D"),
        14 => s.append("E"),
        _ => s.append("F"),
    }
    proof {
        reveal_strlit("0");
        reveal_strlit("1");
        reveal_strlit("2");
        reveal_strlit("3");
        reveal_strlit("4");
        reveal_strlit("5");
        reveal_strlit("6");
        reveal_strlit("7");
        reveal_strlit("8");
        reveal_strlit("9");
        reveal_strlit("A");
        reveal_strlit("B");
        reveal_strlit("C");
        reveal_strlit("D");
        reveal_strlit("E");
        reveal_strlit("F");
        assert(final(s)@ =~= old(s)@ + hex1(d as int));
    }
}

/// Appends two hexadecimal digits for the byte `v` to `s`.
fn push_hex2(s: &mut String, v: u8)
    ensures
        final(s)@ == old(s)@ + hex2(v as int),
{
    push_hex_digit(s, v / 16);
    push_hex_digit(s, v % 16);
    proof {
        assert(final(s)@ =~= old(s)@ + hex2(v as int));
    }
}

/// Appends three hexadecimal digits for the 12-bit value `v` to `s`.
fn push_hex3(s: &mut String, v: u16)
    requires
        v < 4096,
    ensures
        final(s)@ == old(s)@ + hex3(v as int),
{
    push_hex_digit(s, (v / 256) as u8);
    push_hex_digit(s, ((v / 16) % 16) as u8);
    push_hex_digit(s, (v % 16) as u8);
    proof {
        assert(final(s)@ =~= old(s)@ + hex3(v as int));
    }
}

/// Appends four hexadecimal digits for the 16-bit value `v` to `s`.
fn push_hex4(s: &mut String, v: u16)
    ensures
        final(s)@ == old(s)@ + hex4(v as int),
{
    push_hex_digit(s, (v / 4096) as u8);
    push_hex_digit(s, ((v / 256) % 16) as u8);
    push_hex_digit(s, ((v / 16) % 16) as u8);
    push_hex_digit(s, (v % 16) as u8);
    proof {
        assert(final(s)@ =~= old(s)@ + hex4(v as int));
    }
}

/// The printable text of one decoded instruction.
pub fn instruction_text(inst: &Instruction) -> (r: String)
    requires
        inst_wf(*inst),
    ensures
        r@ == instruction_text_spec(*inst),
{
    let mut s = String::new();
    match *inst {
        Instruction::JP(a) => {
            s.append("JP (");
            push_hex3(&mut s, a);
            s.append(")");
        },
        Instruction::CLS => {
            s.append("CLS");
        },
        Instruction::RET => {
            s.append("RET");
        },
        Instruction::CALL(a) => {
            s.append("CALL (");
            push_hex3(&mut s, a);
            s.append(")");
        },
        Instruction::SE(x, kk) => {
            s.append("SE (V");
            push_hex_digit(&mut s, x);
            s.append(", ");
            push_hex2(&mut s, kk);
            s.append(")");
        },
        Instruction::SEVxVy(x, y) => {
            s.append("SE (V");
            push_hex_digit(&mut s, x);
            s.append(", V");
            push_hex_digit(&mut s, y);
            s.append(")");
        },
        Instruction::SNEVxVy(x, y) => {
            s.append("SNE (V");
            push_hex_digit(&mut s, x);
            s.append(", V");
            push_hex_digit(&mut s, y);
            s.append(")");
        },
        Instruction::SNE(x, kk) => {
            s.append("SNE (V");
            push_hex_digit(&mut s, x);
            s.append(", ");
            push_hex2(&mut s, kk);
            s.append(")");
        },
        Instruction::LD(x, kk) => {
            s.append("LD (V");
            push_hex_digit(&mut s, x);
            s.append(", ");
            push_hex2(&mut s, kk);
            s.append(")");
        },
        Instruction::RND(x, kk) => {
            s.append("RND (V");
            push_hex_digit(&mut s, x);
            s.append(", ");
            push_hex2(&mut s, kk);
            s.append(")");
        },
        Instruction::LDI(a) => {
            s.append("LD (I, ");
            push_hex3(&mut s, a);
            s.append(")");
        },
        Instruction::LDB(x) => {
            s.append("LD (B, V");
            push_hex_digit(&mut s, x);
            s.append(")");
        },
        Instruction::LDVxFromVy(x, y) => {
            s.append("LD (V");
            push_hex_digit(&mut s, x);
            s.append(", V");
            push_hex_digit(&mut s, y);
            s.append(")");
        },
        Instruction::LDVxFromI(x) => {
            s.append("LD (V");
            push_hex_digit(&mut s, x);
            s.append(", I)");
        },
        Instruction::LDVxFromK(x) => {
            s.append("LD (V");
            push_hex_digit(&mut s, x);
            s.append(", K)");
        },
        Instruction::LDIFromVx(x) => {
            s.append("LD (I, V");
            push_hex_digit(&mut s, x);
            s.append(")");
        },
        Instruction::LDDTFromVx(x) => {
            s.append("LD (DT, V");
            push_hex_digit(&mut s, x);
            s.append(")");
        },
        Instruction::LDSTFromVx(x) => {
            s.append("LD (ST, V");
            push_hex_digit(&mut s, x);
            s.append(")");
        },
        Instruction::LDVxFromDT(x) => {
            s.append("LD (V");
            push_hex_digit(&mut s, x);
            s.append(", DT)");
        },
        Instruction::LDF(x) => {
            s.append("LD (F, V");
            push_hex_digit(&mut s, x);
            s.append(")");
        },
        Instruction::DRW(x, y, n) => {
            s.append("DRW (V");
            push_hex_digit(&mut s, x);
            s.append(", V");
            push_hex_digit(&mut s, y);
            s.append(", ");
            push_hex_digit(&mut s, n);
            s.append(")");
        },
        Instruction::ADD(x, kk) => {
            s.append("ADD (V");
            push_hex_digit(&mut s, x);
            s.append(", ");
            push_hex2(&mut s, kk);
            s.append(")");
        },
        Instruction::HLT => {
            s.append("HLT");
        },
        Instruction::AND(x, y) => {
            s.append("AND (V");
            push_hex_digit(&mut s, x);
            s.append(", V");
            push_hex_digit(&mut s, y);
            s.append(")");
        },
        Instruction::ADDIVx(x) => {
            s.append("ADD (I, V");
            push_hex_digit(&mut s, x);
            s.append(")");
        },
        Instruction::SKP(x) => {
            s.append("SKP (V");
            push_hex_digit(&mut s, x);
            s.append(")");
        },
        Instruction::SKNP(x) => {
            s.append("SKNP (V");
            push_hex_digit(&mut s, x);
            s.append(")");
        },
        Instruction::SUB(x, y) => {
            s.append("SUB (V");
            push_hex_digit(&mut s, x);
            s.append(", V");
            push_hex_digit(&mut s, y);
            s.append(")");
        },
    }
    proof {
        assert(s@ =~= instruction_text_spec(*inst));
    }
    s
}

/// Decodes a program image, two bytes per instruction, big-endian.  An odd
/// trailing byte is ignored.  The first opcode that matches no pattern
/// stops the disassembly with an error naming that opcode and its load
/// address; otherwise every pair decodes and is returned in order.
#[verifier::rlimit(60)]
pub fn disassemble(input_bytes: &Vec<u8>) -> (r: Result<Vec<Instruction>, Chip8Error>)
    requires
        input_bytes@.len() <= 3584,
    ensures
        r matches Result::Ok(insts) ==> insts@.len() == input_bytes@.len() / 2 && forall|k: int|
            0 <= k < insts@.len() ==> parse_spec(opcode_at(input_bytes@, 2 * k))
                == InstructionParseResult::Parsed(#[trigger] insts@[k]),
        r is Ok <==> (forall|k: int|
            0 <= k < input_bytes@.len() / 2 ==> #[trigger] parse_spec(
                opcode_at(input_bytes@, 2 * k),
            ) is Parsed),
        r matches Result::Err(e) ==> (exists|k: int|
            0 <= k < input_bytes@.len() / 2 && parse_spec(
                #[trigger] opcode_at(input_bytes@, 2 * k),
            ) is Unparsed && e == (Chip8Error::UnrecognizedOpcode {
                opcode: opcode_at(input_bytes@, 2 * k),
                address: (0x200 + 2 * k) as u16,
            }) && forall|q: int| 0 <= q < k ==> #[trigger] parse_spec(opcode_at(input_bytes@, 2 * q)) is Parsed),
        r matches Result::Ok(insts) ==> forall|k: int|
            0 <= k < insts@.len() ==> inst_wf(#[trigger] insts@[k]),
{
    let mut result: Vec<Instruction> = Vec::new();
    let pairs = input_bytes.len() / 2;
    let mut k: usize = 0;
    while k < pairs
        invariant
            input_bytes@.len() <= 3584,
            pairs == input_bytes@.len() / 2,
            k <= pairs,
            result@.len() == k,
            forall|q: int|
                0 <= q < k ==> parse_spec(opcode_at(input_bytes@, 2 * q))
                    == InstructionParseResult::Parsed(#[trigger] result@[q]),
            forall|q: int| 0 <= q < k ==> inst_wf(#[trigger] result@[q]),
        decreases pairs - k,
    {
        let hi = input_bytes[2 * k];
        let lo = input_bytes[2 * k + 1];
        let number = (hi as u16) * 256 + (lo as u16);
        proof {
            assert(number == opcode_at(input_bytes@, 2 * k as int));
        }
        match parse_instruction(number) {
            InstructionParseResult::Parsed(inst) => {
                result.push(inst);
            },
            InstructionParseResult::Unparsed => {
                proof {
                    assert(parse_spec(opcode_at(input_bytes@, 2 * (k as int))) is Unparsed);
                    assert forall|q: int| 0 <= q < k implies #[trigger] parse_spec(
                        opcode_at(input_bytes@, 2 * q),
                    ) is Parsed by {
                        assert(parse_spec(opcode_at(input_bytes@, 2 * q))
                            == InstructionParseResult::Parsed(result@[q]));
                    }
                }
                return Result::Err(
                    Chip8Error::UnrecognizedOpcode { opcode: number, address: 0x200 + 2 * k as u16 },
                );
            },
        }
        k += 1;
    }
    proof {
        assert forall|q: int| 0 <= q < input_bytes@.len() / 2 implies #[trigger] parse_spec(
            opcode_at(input_bytes@, 2 * q),
        ) is Parsed by {
            assert(parse_spec(opcode_at(input_bytes@, 2 * q)) == InstructionParseResult::Parsed(
                result@[q],
            ));
        }
    }
    Result::Ok(result)
}

/// The listing line for the byte pair at index `k` of a hex dump: an
/// optional `XXX - ` load address, then the pair as four hexadecimal
/// digits, or two for an odd final byte.
pub open spec fn hex_line_spec(bytes: Seq<u8>, k: int, show_memory_address: bool) -> Seq<char> {
    let addr = if show_memory_address {
        hex3(0x200 + 2 * k) + " - "@
    } else {
        Seq::<char>::empty()
    };
    if 2 * k + 1 < bytes.len() {
        addr + hex2(bytes[2 * k] as int) + hex2(bytes[2 * k + 1] as int)
    } else {
        addr + hex2(bytes[2 * k] as int)
    }
}

/// The hex-dump listing of a program image: one line per byte pair, in
/// order, an odd final byte on a line of its own.
pub fn hex_dump_lines(bytes: &Vec<u8>, show_memory_address: bool) -> (lines: Vec<String>)
    requires
        bytes@.len() <= 3584,
    ensures
        lines@.len() == (bytes@.len() + 1) / 2,
        forall|k: int|
            0 <= k < lines@.len() ==> (#[trigger] lines@[k])@ == hex_line_spec(
                bytes@,
                k,
                show_memory_address,
            ),
{
    let mut lines: Vec<String> = Vec::new();
    let total = (bytes.len() + 1) / 2;
    let mut k: usize = 0;
    let mut address: u16 = 0x200;
    while k < total
        invariant
            bytes@.len() <= 3584,
            total == (bytes@.len() + 1) / 2,
            k <= total,
            address == 0x200 + 2 * k,
            lines@.len() == k,
            forall|q: int|
                0 <= q < k ==> (#[trigger] lines@[q])@ == hex_line_spec(
                    bytes@,
                    q,
                    show_memory_address,
                ),
        decreases total - k,
    {
        let mut line = String::new();
        if show_memory_address {
            push_hex3(&mut line, address);
            line.append(" - ");
        }
        push_hex2(&mut line, bytes[2 * k]);
        if 2 * k + 1 < bytes.len() {
            push_hex2(&mut line, bytes[2 * k + 1]);
        }
        proof {
            assert(line@ =~= hex_line_spec(bytes@, k as int, show_memory_address));
        }
        lines.push(line);
        address = address + 2;
        k += 1;
    }
    lines
}

/// The listing line for instruction `k` of a disassembly: an optional
/// `XXX - ` load address, then the instruction text.
pub open spec fn instruction_line_spec(
    insts: Seq<Instruction>,
    k: int,
    show_memory_address: bool,
) -> Seq<char> {
    if show_memory_address {
        hex3(0x200 + 2 * k) + " - "@ + instruction_text_spec(insts[k])
    } else {
        instruction_text_spec(insts[k])
    }
}

/// The instruction listing of a disassembled program: one line per
/// instruction, in order.
pub fn instruction_lines(instructions: &Vec<Instruction>, show_memory_address: bool) -> (lines: Vec<
    String,
>)
    requires
        instructions@.len() <= 1792,
        forall|k: int| 0 <= k < instructions@.len() ==> inst_wf(#[trigger] instructions@[k]),
    ensures
        lines@.len() == instructions@.len(),
        forall|k: int|
            0 <= k < lines@.len() ==> (#[trigger] lines@[k])@ == instruction_line_spec(
                instructions@,
                k,
                show_memory_address,
            ),
{
    let mut lines: Vec<String> = Vec::new();
    let mut k: usize = 0;
    let mut address: u16 = 0x200;
    while k < instructions.len()
        invariant
            instructions@.len() <= 1792,
            forall|q: int| 0 <= q < instructions@.len() ==> inst_wf(#[trigger] instructions@[q]),
            k <= instructions@.len(),
            address == 0x200 + 2 * k,
            lines@.len() == k,
            forall|q: int|
                0 <= q < k ==> (#[trigger] lines@[q])@ == instruction_line_spec(
                    instructions@,
                    q,
                    show_memory_address,
                ),
        decreases instructions@.len() - k,
    {
        let mut line = String::new();
        if show_memory_address {
            push_hex3(&mut line, address);
            line.append(" - ");
        }
        let text = instruction_text(&instructions[k]);
        line.append(text.as_str());
        proof {
            assert(line@ =~= instruction_line_spec(instructions@, k as int, show_memory_address));
        }
        lines.push(line);
        address = address + 2;
        k += 1;
    }
    lines
}

/// The instruction that the byte pair at index `k` decodes to, where it
/// decodes at all.
pub open spec fn decoded_at(bytes: Seq<u8>, k: int) -> Instruction {
    match parse_spec(opcode_at(bytes, 2 * k)) {
        InstructionParseResult::Parsed(inst) => inst,
        InstructionParseResult::Unparsed => Instruction::HLT,
    }
}

/// The listing line for the byte pair at index `k` of a full disassembly:
/// an optional `XXX - ` load address, the opcode as four hexadecimal
/// digits, ` - `, and the instruction text.
pub open spec fn full_line_spec(bytes: Seq<u8>, k: int, show_memory_address: bool) -> Seq<char> {
    let addr = if show_memory_address {
        hex3(0x200 + 2 * k) + " - "@
    } else {
        Seq::<char>::empty()
    };
    addr + hex4(opcode_at(bytes, 2 * k) as int) + " - "@ + instruction_text_spec(
        decoded_at(bytes, k),
    )
}

/// The full listing of a program image: each byte pair with its decoded
/// instruction beside it.  Fails on the first opcode that matches no
/// pattern, exactly as [`disassemble`] does.
pub fn full_lines(bytes: &Vec<u8>, show_memory_address: bool) -> (r: Result<Vec<String>, Chip8Error>)
    requires
        bytes@.len() <= 3584,
    ensures
        r is Ok <==> (forall|k: int|
            0 <= k < bytes@.len() / 2 ==> #[trigger] parse_spec(opcode_at(bytes@, 2 * k)) is Parsed),
        r matches Result::Ok(lines) ==> lines@.len() == bytes@.len() / 2 && (forall|k: int|
            0 <= k < lines@.len() ==> (#[trigger] lines@[k])@ == full_line_spec(
                bytes@,
                k,
                show_memory_address,
            )),
        r matches Result::Err(e) ==> (exists|k: int|
            0 <= k < bytes@.len() / 2 && parse_spec(#[trigger] opcode_at(bytes@, 2 * k)) is Unparsed
                && e == (Chip8Error::UnrecognizedOpcode {
                opcode: opcode_at(bytes@, 2 * k),
                address: (0x200 + 2 * k) as u16,
            })),
{
    let instructions = match disassemble(bytes) {
        Result::Ok(instructions) => instructions,
        Result::Err(e) => {
            return Result::Err(e);
        },
    };
    let mut lines: Vec<String> = Vec::new();
    let mut k: usize = 0;
    let mut address: u16 = 0x200;
    while k < instructions.len()
        invariant
            bytes@.len() <= 3584,
            instructions@.len() == bytes@.len() / 2,
            forall|q: int| 0 <= q < instructions@.len() ==> inst_wf(#[trigger] instructions@[q]),
            forall|q: int|
                0 <= q < instructions@.len() ==> parse_spec(opcode_at(bytes@, 2 * q))
                    == InstructionParseResult::Parsed(#[trigger] instructions@[q]),
            k <= instructions@.len(),
            address == 0x200 + 2 * k,
            lines@.len() == k,
            forall|q: int|
                0 <= q < k ==> (#[trigger] lines@[q])@ == full_line_spec(
                    bytes@,
                    q,
                    show_memory_address,
                ),
        decreases instructions@.len() - k,
    {
        let mut line = String::new();
        if show_memory_address {
            push_hex3(&mut line, address);
            line.append(" - ");
        }
        let hi = bytes[2 * k];
        let lo = bytes[2 * k + 1];
        let opcode = (hi as u16) * 256 + (lo as u16);
        proof {
            assert(opcode == opcode_at(bytes@, 2 * k as int));
        }
        push_hex4(&mut line, opcode);
        line.append(" - ");
        let text = instruction_text(&instructions[k]);
        line.append(text.as_str());
        proof {
            assert(decoded_at(bytes@, k as int) == instructions@[k as int]);
            assert(line@ =~= full_line_spec(bytes@, k as int, show_memory_address));
        }
        lines.push(line);
        address = address + 2;
        k += 1;
    }
    Result::Ok(lines)
}

} // verus!
