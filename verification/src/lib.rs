//! A verified CHIP-8 interpreter core.
//!
//! The crate models the classic CHIP-8 virtual machine: a 4096-byte memory,
//! sixteen 8-bit registers, a 16-entry call stack, a 12-bit program counter
//! and index register, two countdown timers and a 64x32 monochrome screen
//! drawn with XOR sprites.  Every state transition of the interpreter is
//! stated as a contract and proved.
//!
//! Window creation, audio output, key mapping and file handling are left to
//! the host program: the core consumes plain bytes and key codes and emits
//! plain pixels and tone-control signals.

pub mod cpu;
pub mod disassembler;
pub mod instruction;
pub mod rng;
pub mod screen;
pub mod timer;
