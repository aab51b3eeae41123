//! The CHIP-8 CPU: memory, registers, stack, program counter, timers and
//! screen, driven by a fetch-decode-execute cycle.
//!
//! The whole machine state has a mathematical view ([`CpuView`]) and every
//! operation is specified as a function of that view.  One cycle of the
//! interpreter is the pure transition [`step_spec`]; the executable
//! [`CPU::step_with_random`] is proved to implement it exactly, and
//! [`CPU::fetch_decode_execute`] feeds it a random byte for the `Cxkk`
//! instruction.
//!
//! Fatal conditions (an unrecognized opcode, stack overflow or underflow,
//! an out-of-range memory access) are reported as typed errors that name
//! the failing opcode or address and leave the machine state untouched, so
//! that it stays inspectable for diagnostics.

use crate::instruction::{inst_wf, parse_instruction, parse_spec, Instruction, InstructionParseResult};
use crate::screen::{draw_erases, draw_grid, Screen, ScreenView};
use crate::timer::{
    set_sound_timer, tick_sound_timer, tick_timer, DelayTimer, SoundMessage, SoundTimer,
    SoundTimerView, Timer, TimerView,
};
use vstd::prelude::*;

verus! {

/// Register index `V0`.
pub const V0: u8 = 0x0;

/// Register index `V1`.
pub const V1: u8 = 0x1;

/// Register index `V2`.
pub const V2: u8 = 0x2;

/// Register index `V3`.
pub const V3: u8 = 0x3;

/// Register index `V4`.
pub const V4: u8 = 0x4;

/// Register index `V5`.
pub const V5: u8 = 0x5;

/// Register index `V6`.
pub const V6: u8 = 0x6;

/// Register index `V7`.
pub const V7: u8 = 0x7;

/// Register index `V8`.
pub const V8: u8 = 0x8;

/// Register index `V9`.
pub const V9: u8 = 0x9;

/// Register index `VA`.
pub const VA: u8 = 0xA;

/// Register index `VB`.
pub const VB: u8 = 0xB;

/// Register index `VC`.
pub const VC: u8 = 0xC;

/// Register index `VD`.
pub const VD: u8 = 0xD;

/// Register index `VE`.
pub const VE: u8 = 0xE;

/// Register index `VF`, the implicit flags register.
pub const VF: u8 = 0xF;

/// What the driver should do after one cycle.
#[derive(Clone, Copy, Debug, PartialEq, Eq, Structural)]
pub enum CPUIterationDecision {
    /// Keep stepping.
    Continue,
    /// The halt instruction was executed; stop stepping.
    Halt,
}

/// A fatal interpreter condition.  The machine state at the moment of the
/// error is left untouched and inspectable.
#[derive(Clone, Copy, Debug, PartialEq, Eq, Structural)]
pub enum Chip8Error {
    /// The opcode at `address` matched no known pattern.
    UnrecognizedOpcode { opcode: u16, address: u16 },
    /// A call was executed with all sixteen stack entries in use.
    StackOverflow { address: u16 },
    /// A return was executed with an empty stack.
    StackUnderflow { address: u16 },
    /// An indirect access through the index register would leave the
    /// 4096-byte memory.
    MemoryOutOfBounds { address: u16, index: u16 },
    /// The program counter points past the end of memory.
    ProgramCounterOutOfBounds { address: u16 },
}

/// The mathematical state of the whole machine.
#[verifier::ext_equal]
pub ghost struct CpuView {
    /// The 4096 bytes of memory.
    pub mem: Seq<u8>,
    /// The sixteen 8-bit registers `V0..=VF`.
    pub regs: Seq<u8>,
    /// The sixteen return-address slots.
    pub stack: Seq<u16>,
    /// The index register `I`.
    pub index: u16,
    /// The program counter.
    pub pc: u16,
    /// The stack pointer: the number of stack slots in use.
    pub sp: u8,
    /// The currently pressed key, if any.
    pub key: Option<u8>,
    /// Whether the machine is suspended waiting for a key press.
    pub waiting: bool,
    /// The screen.
    pub screen: ScreenView,
    /// The delay timer.
    pub delay: TimerView,
    /// The sound timer.
    pub sound: SoundTimerView,
}

/// The machine invariant: fixed sizes, a bounded stack pointer, a bounded
/// program counter and a valid key slot.
///
/// The program counter may sit a few bytes past the 12-bit space (a skip
/// taken at the top of memory), which the next fetch reports as a fatal
/// error; it never grows past 4099.
pub open spec fn cpu_inv(s: CpuView) -> bool {
    &&& s.mem.len() == 4096
    &&& s.regs.len() == 16
    &&& s.stack.len() == 16
    &&& s.screen.grid.len() == 2048
    &&& s.pc < 4100
    &&& s.sp <= 16
    &&& forall|e: int| 0 <= e < 16 ==> s.stack[e] < 4100
    &&& (s.key matches Option::Some(k) ==> k < 16)
}

/// The sixteen 5-byte font sprites installed at addresses `0x000..0x050`,
/// one glyph per hexadecimal digit, digit `d` at `d * 5`.
pub open spec fn font_data() -> Seq<u8> {
    seq![
        0xF0u8, 0x90, 0x90, 0x90, 0xF0,  // 0
        0x20, 0x60, 0x20, 0x20, 0x70,  // 1
        0xF0, 0x10, 0xF0, 0x80, 0xF0,  // 2
        0xF0, 0x10, 0xF0, 0x10, 0xF0,  // 3
        0x90, 0x90, 0xF0, 0x10, 0x10,  // 4
        0xF0, 0x80, 0xF0, 0x10, 0xF0,  // 5
        0xF0, 0x80, 0xF0, 0x90, 0xF0,  // 6
        0xF0, 0x10, 0x20, 0x40, 0x40,  // 7
        0xF0, 0x90, 0xF0, 0x90, 0xF0,  // 8
        0xF0, 0x90, 0xF0, 0x10, 0xF0,  // 9
        0xF0, 0x90, 0xF0, 0x90, 0x90,  // A
        0xE0, 0x90, 0xE0, 0x90, 0xE0,  // B
        0xF0, 0x80, 0x80, 0x80, 0xF0,  // C
        0xE0, 0x90, 0x90, 0x90, 0xE0,  // D
        0xF0, 0x80, 0xF0, 0x80, 0xF0,  // E
        0xF0, 0x80, 0xF0, 0x80, 0x80,  // F
    ]
}

/// The font sprites as an executable table.
fn font_table() -> (v: Vec<u8>)
    ensures
        v@ =~= font_data(),
{
    let mut v: Vec<u8> = Vec::new();
    v.push(0xF0);
    v.push(0x90);
    v.push(0x90);
    v.push(0x90);
    v.push(0xF0);
    v.push(0x20);
    v.push(0x60);
    v.push(0x20);
    v.push(0x20);
    v.push(0x70);
    v.push(0xF0);
    v.push(0x10);
    v.push(0xF0);
    v.push(0x80);
    v.push(0xF0);
    v.push(0xF0);
    v.push(0x10);
    v.push(0xF0);
    v.push(0x10);
    v.push(0xF0);
    v.push(0x90);
    v.push(0x90);
    v.push(0xF0);
    v.push(0x10);
    v.push(0x10);
    v.push(0xF0);
    v.push(0x80);
    v.push(0xF0);
    v.push(0x10);
    v.push(0xF0);
    v.push(0xF0);
    v.push(0x80);
    v.push(0xF0);
    v.push(0x90);
    v.push(0xF0);
    v.push(0xF0);
    v.push(0x10);
    v.push(0x20);
    v.push(0x40);
    v.push(0x40);
    v.push(0xF0);
    v.push(0x90);
    v.push(0xF0);
    v.push(0x90);
    v.push(0xF0);
    v.push(0xF0);
    v.push(0x90);
    v.push(0xF0);
    v.push(0x10);
    v.push(0xF0);
    v.push(0xF0);
    v.push(0x90);
    v.push(0xF0);
    v.push(0x90);
    v.push(0x90);
    v.push(0xE0);
    v.push(0x90);
    v.push(0xE0);
    v.push(0x90);
    v.push(0xE0);
    v.push(0xF0);
    v.push(0x80);
    v.push(0x80);
    v.push(0x80);
    v.push(0xF0);
    v.push(0xE0);
    v.push(0x90);
    v.push(0x90);
    v.push(0x90);
    v.push(0xE0);
    v.push(0xF0);
    v.push(0x80);
    v.push(0xF0);
    v.push(0x80);
    v.push(0xF0);
    v.push(0xF0);
    v.push(0x80);
    v.push(0xF0);
    v.push(0x80);
    v.push(0x80);
    v
}

/// The CHIP-8 machine.
pub struct CPU {
    memory: Vec<u8>,
    registers: Vec<u8>,
    stack: Vec<u16>,
    memory_location: u16,
    program_counter: u16,
    stack_pointer: u8,
    active_key: Option<u8>,
    waiting_for_key_press: bool,
    screen: Screen,
    delay_timer: DelayTimer,
    sound_timer: SoundTimer,
}

impl View for CPU {
    type V = CpuView;

    closed spec fn view(&self) -> CpuView {
        CpuView {
            mem: self.memory@,
            regs: self.registers@,
            stack: self.stack@,
            index: self.memory_location,
            pc: self.program_counter,
            sp: self.stack_pointer,
            key: self.active_key,
            waiting: self.waiting_for_key_press,
            screen: self.screen@,
            delay: self.delay_timer@,
            sound: self.sound_timer@,
        }
    }
}

/// The state of a freshly constructed machine: memory filled with `0xFF`
/// except for the font sprites at `0x000..0x050`, every register, stack
/// slot and special register zero, no key pressed, both timers inactive,
/// and a cleared screen.
pub open spec fn initial_cpu(s: CpuView) -> bool {
    &&& forall|p: int| 0 <= p < 80 ==> s.mem[p] == font_data()[p]
    &&& forall|p: int| 80 <= p < 4096 ==> s.mem[p] == 0xFFu8
    &&& forall|r: int| 0 <= r < 16 ==> s.regs[r] == 0u8
    &&& forall|e: int| 0 <= e < 16 ==> s.stack[e] == 0u16
    &&& s.index == 0
    &&& s.pc == 0
    &&& s.sp == 0
    &&& s.key is None
    &&& !s.waiting
    &&& forall|p: int| 0 <= p < 2048 ==> !s.screen.grid[p]
    &&& s.screen.changed
    &&& s.delay == (TimerView { value: 0, active: false })
    &&& s.sound == (SoundTimerView { value: 0, active: false, pending: Option::None })
}

impl CPU {
    /// The machine invariant, stated over the view.
    pub open spec fn wf(&self) -> bool {
        cpu_inv(self@)
    }

    /// A freshly constructed machine, in the state [`initial_cpu`]
    /// describes.
    pub fn new() -> (cpu: CPU)
        ensures
            cpu.wf(),
            initial_cpu(cpu@),
    {
        let mut memory: Vec<u8> = Vec::new();
        let mut i: usize = 0;
        while i < 4096
            invariant
                i <= 4096,
                memory@.len() == i,
                forall|p: int| 0 <= p < i ==> memory@[p] == 0xFFu8,
            decreases 4096 - i,
        {
            memory.push(0xFF);
            i += 1;
        }
        let mut registers: Vec<u8> = Vec::new();
        let mut stack: Vec<u16> = Vec::new();
        let mut r: usize = 0;
        while r < 16
            invariant
                r <= 16,
                registers@.len() == r,
                stack@.len() == r,
                forall|q: int| 0 <= q < r ==> registers@[q] == 0u8,
                forall|q: int| 0 <= q < r ==> stack@[q] == 0u16,
            decreases 16 - r,
        {
            registers.push(0x0);
            stack.push(0x0);
            r += 1;
        }
        let mut cpu = CPU {
            registers,
            memory_location: 0x0,
            program_counter: 0x0,
            stack_pointer: 0x0,
            memory,
            screen: Screen::new(),
            active_key: Option::None,
            waiting_for_key_press: false,
            stack,
            delay_timer: DelayTimer::new(),
            sound_timer: SoundTimer::new(),
        };
        cpu.initialize_sprites();
        cpu.screen.clear();
        cpu
    }

    /// Copies the font sprites into memory at `0x000..0x050`.
    fn initialize_sprites(&mut self)
        requires
            old(self)@.mem.len() == 4096,
        ensures
            final(self)@.mem.len() == 4096,
            forall|p: int| 0 <= p < 80 ==> final(self)@.mem[p] == font_data()[p],
            forall|p: int| 80 <= p < 4096 ==> final(self)@.mem[p] == old(self)@.mem[p],
            final(self)@ == (CpuView { mem: final(self)@.mem, ..old(self)@ }),
    {
        let table = font_table();
        let mut i: usize = 0;
        while i < 80
            invariant
                i <= 80,
                self@.mem.len() == 4096,
                table@ =~= font_data(),
                forall|p: int| 0 <= p < i ==> self@.mem[p] == font_data()[p],
                forall|p: int| i <= p < 4096 ==> self@.mem[p] == old(self)@.mem[p],
                self@ == (CpuView { mem: self@.mem, ..old(self)@ }),
            decreases 80 - i,
        {
            self.memory.set(i, table[i]);
            i += 1;
        }
    }

    /// The memory address of the font sprite for hexadecimal digit
    /// `sprite`: five bytes per glyph.
    fn get_sprite_address(&self, sprite: u8) -> (addr: u16)
        requires
            sprite < 16,
        ensures
            addr == sprite * 5,
    {
        sprite as u16 * 5
    }

    /// The stack pointer.
    pub fn stack_pointer(&self) -> (sp: u8)
        ensures
            sp == self@.sp,
    {
        self.stack_pointer
    }

    /// The program counter.
    pub fn program_counter(&self) -> (pc: u16)
        ensures
            pc == self@.pc,
    {
        self.program_counter
    }

    /// The index register `I`.
    pub fn memory_location(&self) -> (i: u16)
        ensures
            i == self@.index,
    {
        self.memory_location
    }

    /// A copy of the sixteen registers.
    pub fn registers(&self) -> (regs: Vec<u8>)
        requires
            self.wf(),
        ensures
            regs@ =~= self@.regs,
    {
        let mut regs: Vec<u8> = Vec::new();
        let mut i: usize = 0;
        while i < 16
            invariant
                self.wf(),
                i <= 16,
                regs@.len() == i,
                forall|q: int| 0 <= q < i ==> regs@[q] == self@.regs[q],
            decreases 16 - i,
        {
            regs.push(self.registers[i]);
            i += 1;
        }
        regs
    }

    /// Writes a register.
    pub fn set_register(&mut self, register: u8, value: u8)
        requires
            old(self).wf(),
            register < 16,
        ensures
            final(self).wf(),
            final(self)@ == (CpuView {
                regs: old(self)@.regs.update(register as int, value),
                ..old(self)@
            }),
    {
        self.registers.set(register as usize, value);
    }

    /// Reads a register.
    pub fn get_register(&self, register: u8) -> (value: u8)
        requires
            self.wf(),
            register < 16,
        ensures
            value == self@.regs[register as int],
    {
        self.registers[register as usize]
    }

    /// The whole memory, for inspection.
    pub fn memory(&self) -> (mem: &Vec<u8>)
        ensures
            mem@ == self@.mem,
    {
        &self.memory
    }

    /// The screen, for inspection.
    pub fn screen(&self) -> (screen: &Screen)
        ensures
            screen@ == self@.screen,
    {
        &self.screen
    }

    /// Renders the screen into an RGBA frame buffer when it changed since
    /// the last render; reports whether a copy happened.
    pub fn render(&mut self, frame: &mut Vec<u8>) -> (rendered: bool)
        requires
            old(self).wf(),
            old(frame)@.len() == 8192,
        ensures
            final(self).wf(),
            rendered == old(self)@.screen.changed,
            final(self)@ == (CpuView {
                screen: ScreenView { grid: old(self)@.screen.grid, changed: false },
                ..old(self)@
            }),
            old(self)@.screen.changed ==> final(frame)@ =~= Screen::frame_of(old(self)@.screen.grid),
            !old(self)@.screen.changed ==> final(frame)@ == old(frame)@,
    {
        self.screen.draw(frame)
    }

    /// Loads a program image into memory at `0x200` and points the program
    /// counter there.  At most 3584 bytes (the memory below `0x200` is
    /// reserved) are loaded; the rest of the image is silently truncated.
    /// Returns how many bytes were loaded.
    pub fn load_program(&mut self, program: &Vec<u8>) -> (loaded: usize)
        requires
            old(self).wf(),
        ensures
            final(self).wf(),
            loaded == if program@.len() <= 3584 {
                program@.len() as int
            } else {
                3584
            },
            forall|p: int|
                0 <= p < 4096 && !(512 <= p < 512 + loaded) ==> final(self)@.mem[p] == old(
                    self,
                )@.mem[p],
            forall|p: int|
                512 <= p < 512 + loaded ==> final(self)@.mem[p] == program@[p - 512],
            final(self)@ == (CpuView { mem: final(self)@.mem, pc: 0x200u16, ..old(self)@ }),
    {
        let loaded: usize = if program.len() <= 3584 {
            program.len()
        } else {
            3584
        };
        let mut i: usize = 0;
        while i < loaded
            invariant
                self@.mem.len() == 4096,
                i <= loaded,
                loaded <= 3584,
                loaded <= program@.len(),
                forall|p: int|
                    0 <= p < 4096 && !(512 <= p < 512 + i) ==> self@.mem[p] == old(self)@.mem[p],
                forall|p: int| 512 <= p < 512 + i ==> self@.mem[p] == program@[p - 512],
                self@ == (CpuView { mem: self@.mem, ..old(self)@ }),
            decreases loaded - i,
        {
            self.memory.set(512 + i, program[i]);
            i += 1;
        }
        self.program_counter = 0x200;
        loaded
    }

    /// One 60 Hz frame: both timers count down by their rule.  Any sound
    /// signal is left in the sound timer's mailbox.
    pub fn tick(&mut self)
        requires
            old(self).wf(),
        ensures
            final(self).wf(),
            final(self)@ == (CpuView {
                delay: tick_timer(old(self)@.delay),
                sound: tick_sound_timer(old(self)@.sound),
                ..old(self)@
            }),
    {
        self.sound_timer.tick();
        self.delay_timer.tick();
    }

    /// Removes and returns the pending tone-control signal, if any.
    pub fn take_sound_message(&mut self) -> (msg: Option<SoundMessage>)
        requires
            old(self).wf(),
        ensures
            final(self).wf(),
            msg == old(self)@.sound.pending,
            final(self)@ == (CpuView {
                sound: SoundTimerView { pending: Option::None, ..old(self)@.sound },
                ..old(self)@
            }),
    {
        self.sound_timer.take_message()
    }

    /// The final stop signal owed to the audio collaborator at teardown.
    pub fn force_audio_stop(&self) -> (msg: SoundMessage)
        ensures
            msg == SoundMessage::Stop,
    {
        self.sound_timer.force_audio_stop()
    }

    /// Records the key currently pressed by the host, or `None`.  A key
    /// code outside `0..16` is invalid input and is treated as no key.
    pub fn set_key_pressed(&mut self, key: Option<u8>)
        requires
            old(self).wf(),
        ensures
            final(self).wf(),
            final(self)@ == (CpuView { key: valid_key(key), ..old(self)@ }),
    {
        let checked = match key {
            Option::Some(k) => if k < 16 {
                Option::Some(k)
            } else {
                Option::None
            },
            Option::None => Option::None,
        };
        self.active_key = checked;
    }
}

/// Host key input after validation: any key code outside `0..16` counts as
/// no key.
pub open spec fn valid_key(key: Option<u8>) -> Option<u8> {
    match key {
        Option::Some(k) => if k < 16 {
            Option::Some(k)
        } else {
            Option::None
        },
        Option::None => Option::None,
    }
}

/// The big-endian 16-bit opcode formed from the two bytes at `pc`.
pub open spec fn opcode_at(mem: Seq<u8>, pc: int) -> u16 {
    (mem[pc] * 256 + mem[pc + 1]) as u16
}

/// `s` with the program counter advanced by `n` bytes.
pub open spec fn adv(s: CpuView, n: u16) -> CpuView {
    CpuView { pc: (s.pc + n) as u16, ..s }
}

/// Memory after block-copying registers `V0..=Vx` to addresses
/// `i..=i + x`.
pub open spec fn store_regs_spec(mem: Seq<u8>, regs: Seq<u8>, i: int, x: int) -> Seq<u8> {
    Seq::new(
        mem.len(),
        |p: int|
            if i <= p <= i + x {
                regs[p - i]
            } else {
                mem[p]
            },
    )
}

/// Registers after block-reading `V0..=Vx` from addresses `i..=i + x`.
pub open spec fn load_regs_spec(regs: Seq<u8>, mem: Seq<u8>, i: int, x: int) -> Seq<u8> {
    Seq::new(
        regs.len(),
        |r: int|
            if r <= x {
                mem[i + r]
            } else {
                regs[r]
            },
    )
}

/// The screen after a clear: all dark, marked changed.
pub open spec fn cleared_screen() -> ScreenView {
    ScreenView { grid: Seq::new(2048, |p: int| false), changed: true }
}

/// The decision that keeps the driver stepping.
pub open spec fn cont() -> Result<CPUIterationDecision, Chip8Error> {
    Result::Ok(CPUIterationDecision::Continue)
}

/// The effect of one decoded instruction, given the random byte `b` drawn
/// for `Cxkk`: the next machine state and the decision or fatal error.  On
/// an error the state is unchanged.
///
/// Jump, call and return set the program counter directly; skip
/// instructions advance it by 4 when their condition holds; every other
/// instruction advances it by 2 after its effect.
pub open spec fn exec_spec(s: CpuView, inst: Instruction, b: u8) -> (
    CpuView,
    Result<CPUIterationDecision, Chip8Error>,
) {
    match inst {
        Instruction::RET => {
            if s.sp == 0 {
                (s, Result::Err(Chip8Error::StackUnderflow { address: s.pc }))
            } else {
                (CpuView { pc: s.stack[s.sp - 1], sp: (s.sp - 1) as u8, ..s }, cont())
            }
        },
        Instruction::JP(addr) => (CpuView { pc: addr, ..s }, cont()),
        Instruction::CALL(addr) => {
            if s.sp >= 16 {
                (s, Result::Err(Chip8Error::StackOverflow { address: s.pc }))
            } else {
                (
                    CpuView {
                        stack: s.stack.update(s.sp as int, s.pc),
                        sp: (s.sp + 1) as u8,
                        pc: addr,
                        ..s
                    },
                    cont(),
                )
            }
        },
        Instruction::LDI(addr) => (adv(CpuView { index: addr, ..s }, 2), cont()),
        Instruction::LD(x, kk) => (adv(CpuView { regs: s.regs.update(x as int, kk), ..s }, 2), cont()),
        Instruction::ADD(x, kk) => (
            adv(
                CpuView {
                    regs: s.regs.update(x as int, ((s.regs[x as int] + kk) % 256) as u8),
                    ..s
                },
                2,
            ),
            cont(),
        ),
        Instruction::HLT => (s, Result::Ok(CPUIterationDecision::Halt)),
        Instruction::RND(x, kk) => (adv(CpuView { regs: s.regs.update(x as int, b & kk), ..s }, 2), cont()),
        Instruction::CLS => (adv(CpuView { screen: cleared_screen(), ..s }, 2), cont()),
        Instruction::LDB(x) => {
            if s.index + 2 >= 4096 {
                (s, Result::Err(Chip8Error::MemoryOutOfBounds { address: s.pc, index: s.index }))
            } else {
                let v = s.regs[x as int];
                (
                    adv(
                        CpuView {
                            mem: s.mem.update(s.index as int, (v / 100) as u8).update(
                                s.index + 1,
                                ((v / 10) % 10) as u8,
                            ).update(s.index + 2, (v % 10) as u8),
                            ..s
                        },
                        2,
                    ),
                    cont(),
                )
            }
        },
        Instruction::LDIFromVx(x) => {
            if s.index + x >= 4096 {
                (s, Result::Err(Chip8Error::MemoryOutOfBounds { address: s.pc, index: s.index }))
            } else {
                (
                    adv(
                        CpuView {
                            mem: store_regs_spec(s.mem, s.regs, s.index as int, x as int),
                            ..s
                        },
                        2,
                    ),
                    cont(),
                )
            }
        },
        Instruction::LDVxFromK(x) => {
            match s.key {
                Option::Some(k) => (
                    adv(CpuView { regs: s.regs.update(x as int, k), waiting: false, ..s }, 2),
                    cont(),
                ),
                Option::None => (CpuView { waiting: true, ..s }, cont()),
            }
        },
        Instruction::LDVxFromI(x) => {
            if s.index + x >= 4096 {
                (s, Result::Err(Chip8Error::MemoryOutOfBounds { address: s.pc, index: s.index }))
            } else {
                (
                    adv(
                        CpuView {
                            regs: load_regs_spec(s.regs, s.mem, s.index as int, x as int),
                            ..s
                        },
                        2,
                    ),
                    cont(),
                )
            }
        },
        Instruction::LDF(x) => (
            adv(CpuView { index: ((s.regs[x as int] % 16) * 5) as u16, ..s }, 2),
            cont(),
        ),
        Instruction::DRW(x, y, n) => {
            if s.index + n > 4096 {
                (s, Result::Err(Chip8Error::MemoryOutOfBounds { address: s.pc, index: s.index }))
            } else {
                let sprite = s.mem.subrange(s.index as int, s.index + n);
                let vx = s.regs[x as int] as int % 64;
                let vy = s.regs[y as int] as int % 32;
                let erased = draw_erases(s.screen.grid, vx, vy, sprite);
                (
                    adv(
                        CpuView {
                            screen: ScreenView {
                                grid: draw_grid(s.screen.grid, vx, vy, sprite),
                                changed: true,
                            },
                            regs: s.regs.update(
                                15,
                                if erased {
                                    1u8
                                } else {
                                    0u8
                                },
                            ),
                            ..s
                        },
                        2,
                    ),
                    cont(),
                )
            }
        },
        Instruction::SE(x, kk) => (
            adv(
                s,
                if s.regs[x as int] == kk {
                    4
                } else {
                    2
                },
            ),
            cont(),
        ),
        Instruction::SNE(x, kk) => (
            adv(
                s,
                if s.regs[x as int] != kk {
                    4
                } else {
                    2
                },
            ),
            cont(),
        ),
        Instruction::SEVxVy(x, y) => (
            adv(
                s,
                if s.regs[x as int] == s.regs[y as int] {
                    4
                } else {
                    2
                },
            ),
            cont(),
        ),
        Instruction::SNEVxVy(x, y) => (
            adv(
                s,
                if s.regs[x as int] != s.regs[y as int] {
                    4
                } else {
                    2
                },
            ),
            cont(),
        ),
        Instruction::LDVxFromVy(x, y) => (
            adv(CpuView { regs: s.regs.update(x as int, s.regs[y as int]), ..s }, 2),
            cont(),
        ),
        Instruction::LDDTFromVx(x) => (
            adv(CpuView { delay: TimerView { value: s.regs[x as int], active: true }, ..s }, 2),
            cont(),
        ),
        Instruction::LDSTFromVx(x) => (
            adv(CpuView { sound: set_sound_timer(s.sound, s.regs[x as int]), ..s }, 2),
            cont(),
        ),
        Instruction::LDVxFromDT(x) => (
            adv(CpuView { regs: s.regs.update(x as int, s.delay.value), ..s }, 2),
            cont(),
        ),
        Instruction::AND(x, y) => (
            adv(
                CpuView {
                    regs: s.regs.update(x as int, s.regs[x as int] & s.regs[y as int]),
                    ..s
                },
                2,
            ),
            cont(),
        ),
        Instruction::ADDIVx(x) => (
            adv(CpuView { index: ((s.index + s.regs[x as int]) % 0x10000) as u16, ..s }, 2),
            cont(),
        ),
        Instruction::SKP(x) => (
            adv(
                s,
                if s.key == Option::Some(s.regs[x as int]) {
                    4
                } else {
                    2
                },
            ),
            cont(),
        ),
        Instruction::SKNP(x) => (
            adv(
                s,
                if s.key != Option::Some(s.regs[x as int]) {
                    4
                } else {
                    2
                },
            ),
            cont(),
        ),
        Instruction::SUB(x, y) => {
            let vx = s.regs[x as int];
            let vy = s.regs[y as int];
            let flagged = s.regs.update(
                15,
                if vx >= vy {
                    1u8
                } else {
                    0u8
                },
            );
            (
                adv(CpuView { regs: flagged.update(x as int, ((vx - vy) % 256) as u8), ..s }, 2),
                cont(),
            )
        },
    }
}

/// One cycle of the interpreter as a pure transition: suspend while
/// waiting for a key, otherwise fetch, decode and execute the opcode at
/// the program counter.  `b` is the random byte drawn for `Cxkk`.
pub open spec fn step_spec(s: CpuView, b: u8) -> (
    CpuView,
    Result<CPUIterationDecision, Chip8Error>,
) {
    if s.waiting && s.key is None {
        (s, cont())
    } else if s.pc + 1 >= 4096 {
        (s, Result::Err(Chip8Error::ProgramCounterOutOfBounds { address: s.pc }))
    } else {
        let op = opcode_at(s.mem, s.pc as int);
        match parse_spec(op) {
            InstructionParseResult::Parsed(inst) => exec_spec(s, inst, b),
            InstructionParseResult::Unparsed => (
                s,
                Result::Err(Chip8Error::UnrecognizedOpcode { opcode: op, address: s.pc }),
            ),
        }
    }
}

/// Masking the low nibble of a byte is the remainder modulo 16.
proof fn lemma_u8_low_nibble(v: u8)
    by (bit_vector)
    ensures
        v & 0xF == v % 16,
{
}

impl CPU {
    /// The big-endian opcode at `addr`.
    fn read_u16_from_memory(&self, addr: usize) -> (op: u16)
        requires
            self.wf(),
            addr + 1 < 4096,
        ensures
            op == opcode_at(self@.mem, addr as int),
    {
        (self.memory[addr] as u16) * 256 + (self.memory[addr + 1] as u16)
    }

    /// Advances the program counter by `n` bytes.
    fn advance_pc(&mut self, n: u16)
        requires
            old(self).wf(),
            old(self)@.pc + n < 4100,
        ensures
            final(self).wf(),
            final(self)@ == adv(old(self)@, n),
    {
        self.program_counter = self.program_counter + n;
    }

    /// Sets the program counter to `addr`.
    fn jump(&mut self, addr: u16)
        requires
            old(self).wf(),
            addr < 4096,
        ensures
            final(self).wf(),
            final(self)@ == (CpuView { pc: addr, ..old(self)@ }),
    {
        self.program_counter = addr;
    }

    /// Pushes the current program counter and jumps to `addr`.
    fn call(&mut self, addr: u16)
        requires
            old(self).wf(),
            old(self)@.sp < 16,
            addr < 4096,
        ensures
            final(self).wf(),
            final(self)@ == (CpuView {
                stack: old(self)@.stack.update(old(self)@.sp as int, old(self)@.pc),
                sp: (old(self)@.sp + 1) as u8,
                pc: addr,
                ..old(self)@
            }),
    {
        self.stack.set(self.stack_pointer as usize, self.program_counter);
        self.stack_pointer = self.stack_pointer + 1;
        self.program_counter = addr;
    }

    /// Pops the return address into the program counter.
    fn ret(&mut self)
        requires
            old(self).wf(),
            old(self)@.sp > 0,
        ensures
            final(self).wf(),
            final(self)@ == (CpuView {
                pc: old(self)@.stack[old(self)@.sp - 1],
                sp: (old(self)@.sp - 1) as u8,
                ..old(self)@
            }),
    {
        let index = (self.stack_pointer - 1) as usize;
        let target = self.stack[index];
        self.program_counter = target;
        self.stack_pointer = self.stack_pointer - 1;
    }

    /// Darkens the screen.
    fn clear_screen(&mut self)
        requires
            old(self).wf(),
        ensures
            final(self).wf(),
            final(self)@ == (CpuView { screen: cleared_screen(), ..old(self)@ }),
    {
        self.screen.clear();
        proof {
            assert(self@.screen =~= cleared_screen());
        }
    }

    /// Writes the three binary-coded-decimal digits of `Vx` to memory at
    /// `I`, `I + 1` and `I + 2`, leaving the register untouched.
    fn copy_register_bcd_into_memory(&mut self, register: u8)
        requires
            old(self).wf(),
            register < 16,
            old(self)@.index + 2 < 4096,
        ensures
            final(self).wf(),
            final(self)@ == (CpuView {
                mem: old(self)@.mem.update(
                    old(self)@.index as int,
                    (old(self)@.regs[register as int] / 100) as u8,
                ).update(
                    old(self)@.index + 1,
                    ((old(self)@.regs[register as int] / 10) % 10) as u8,
                ).update(old(self)@.index + 2, (old(self)@.regs[register as int] % 10) as u8),
                ..old(self)@
            }),
    {
        let mut value = self.registers[register as usize];
        let ghost v0 = value;
        let addr = self.memory_location as usize;
        let ones = value % 10;
        value = value / 10;
        let tens = value % 10;
        value = value / 10;
        let hundreds = value % 10;
        proof {
            assert((v0 / 10) / 10 == v0 / 100) by (nonlinear_arith);
            assert(v0 / 100 < 10);
        }
        self.memory.set(addr, hundreds);
        self.memory.set(addr + 1, tens);
        self.memory.set(addr + 2, ones);
    }

    /// Block-copies registers `V0..=Vx` into memory starting at `I`.
    fn store_registers_to_memory(&mut self, x: u8)
        requires
            old(self).wf(),
            x < 16,
            old(self)@.index + x < 4096,
        ensures
            final(self).wf(),
            final(self)@ == (CpuView {
                mem: store_regs_spec(
                    old(self)@.mem,
                    old(self)@.regs,
                    old(self)@.index as int,
                    x as int,
                ),
                ..old(self)@
            }),
    {
        let base = self.memory_location as usize;
        let count = x as usize + 1;
        let mut k: usize = 0;
        while k < count
            invariant
                self@.mem.len() == 4096,
                self@.regs.len() == 16,
                count == x + 1,
                x < 16,
                base == old(self)@.index,
                base + x < 4096,
                k <= count,
                forall|p: int| base <= p < base + k ==> self@.mem[p] == old(self)@.regs[p - base],
                forall|p: int|
                    0 <= p < 4096 && !(base <= p < base + k) ==> self@.mem[p] == old(self)@.mem[p],
                self@ == (CpuView { mem: self@.mem, ..old(self)@ }),
            decreases count - k,
        {
            let v = self.registers[k];
            self.memory.set(base + k, v);
            k += 1;
        }
        proof {
            assert(self@.mem =~= store_regs_spec(
                old(self)@.mem,
                old(self)@.regs,
                old(self)@.index as int,
                x as int,
            ));
        }
    }

    /// Block-reads registers `V0..=Vx` from memory starting at `I`.
    fn load_registers_from_memory(&mut self, x: u8)
        requires
            old(self).wf(),
            x < 16,
            old(self)@.index + x < 4096,
        ensures
            final(self).wf(),
            final(self)@ == (CpuView {
                regs: load_regs_spec(
                    old(self)@.regs,
                    old(self)@.mem,
                    old(self)@.index as int,
                    x as int,
                ),
                ..old(self)@
            }),
    {
        let base = self.memory_location as usize;
        let count = x as usize + 1;
        let mut k: usize = 0;
        while k < count
            invariant
                self@.mem.len() == 4096,
                self@.regs.len() == 16,
                count == x + 1,
                x < 16,
                base == old(self)@.index,
                base + x < 4096,
                k <= count,
                forall|r: int| 0 <= r < k ==> self@.regs[r] == old(self)@.mem[base + r],
                forall|r: int| k <= r < 16 ==> self@.regs[r] == old(self)@.regs[r],
                self@ == (CpuView { regs: self@.regs, ..old(self)@ }),
            decreases count - k,
        {
            let v = self.memory[base + k];
            self.registers.set(k, v);
            k += 1;
        }
        proof {
            assert(self@.regs =~= load_regs_spec(
                old(self)@.regs,
                old(self)@.mem,
                old(self)@.index as int,
                x as int,
            ));
        }
    }

    /// One deterministic cycle: fetch, decode and execute the opcode at the
    /// program counter, with `b` standing in for the random byte of `Cxkk`.
    /// Implements [`step_spec`] exactly.
    #[verifier::rlimit(80)]
    pub fn step_with_random(&mut self, b: u8) -> (r: Result<CPUIterationDecision, Chip8Error>)
        requires
            old(self).wf(),
        ensures
            final(self).wf(),
            final(self)@ == step_spec(old(self)@, b).0,
            r == step_spec(old(self)@, b).1,
    {
        let ghost s0 = self@;
        if self.waiting_for_key_press && self.active_key.is_none() {
            return Result::Ok(CPUIterationDecision::Continue);
        }
        if self.program_counter >= 4095 {
            return Result::Err(
                Chip8Error::ProgramCounterOutOfBounds { address: self.program_counter },
            );
        }
        let pc = self.program_counter;
        let opcode = self.read_u16_from_memory(pc as usize);
        let inst = match parse_instruction(opcode) {
            InstructionParseResult::Parsed(inst) => inst,
            InstructionParseResult::Unparsed => {
                return Result::Err(Chip8Error::UnrecognizedOpcode { opcode, address: pc });
            },
        };
        proof {
            assert(opcode == opcode_at(s0.mem, s0.pc as int));
            assert(parse_spec(opcode) == InstructionParseResult::Parsed(inst));
            assert(inst_wf(inst));
        }
        match inst {
            Instruction::RET => {
                if self.stack_pointer == 0 {
                    return Result::Err(Chip8Error::StackUnderflow { address: pc });
                }
                self.ret();
                proof {
                    assert(self@ =~~= step_spec(s0, b).0);
                }
                Result::Ok(CPUIterationDecision::Continue)
            },
            Instruction::JP(addr) => {
                self.jump(addr);
                proof {
                    assert(self@ =~~= step_spec(s0, b).0);
                }
                Result::Ok(CPUIterationDecision::Continue)
            },
            Instruction::CALL(addr) => {
                if self.stack_pointer >= 16 {
                    return Result::Err(Chip8Error::StackOverflow { address: pc });
                }
                self.call(addr);
                proof {
                    assert(self@ =~~= step_spec(s0, b).0);
                }
                Result::Ok(CPUIterationDecision::Continue)
            },
            Instruction::LDI(addr) => {
                self.memory_location = addr;
                self.advance_pc(2);
                proof {
                    assert(self@ =~~= step_spec(s0, b).0);
                }
                Result::Ok(CPUIterationDecision::Continue)
            },
            Instruction::LD(register, value) => {
                self.set_register(register, value);
                self.advance_pc(2);
                proof {
                    assert(self@ =~~= step_spec(s0, b).0);
                }
                Result::Ok(CPUIterationDecision::Continue)
            },
            Instruction::ADD(register, value) => {
                let register_value = self.get_register(register);
                let result = register_value.wrapping_add(value);
                proof {
                    assert(result == ((s0.regs[register as int] + value) % 256) as u8);
                }
                self.set_register(register, result);
                self.advance_pc(2);
                proof {
                    assert(self@ =~~= step_spec(s0, b).0);
                }
                Result::Ok(CPUIterationDecision::Continue)
            },
            Instruction::HLT => {
                proof {
                    assert(self@ =~~= step_spec(s0, b).0);
                }
                Result::Ok(CPUIterationDecision::Halt)
            },
            Instruction::RND(register, and_mask) => {
                self.set_register(register, b & and_mask);
                self.advance_pc(2);
                proof {
                    assert(self@ =~~= step_spec(s0, b).0);
                }
                Result::Ok(CPUIterationDecision::Continue)
            },
            Instruction::CLS => {
                self.clear_screen();
                self.advance_pc(2);
                proof {
                    assert(self@ =~~= step_spec(s0, b).0);
                }
                Result::Ok(CPUIterationDecision::Continue)
            },
            Instruction::LDB(register) => {
                if self.memory_location >= 4094 {
                    return Result::Err(
                        Chip8Error::MemoryOutOfBounds { address: pc, index: self.memory_location },
                    );
                }
                self.copy_register_bcd_into_memory(register);
                self.advance_pc(2);
                proof {
                    assert(self@ =~~= step_spec(s0, b).0);
                }
                Result::Ok(CPUIterationDecision::Continue)
            },
            Instruction::LDIFromVx(register) => {
                if self.memory_location >= 4096 - register as u16 {
                    return Result::Err(
                        Chip8Error::MemoryOutOfBounds { address: pc, index: self.memory_location },
                    );
                }
                self.store_registers_to_memory(register);
                self.advance_pc(2);
                proof {
                    assert(self@ =~~= step_spec(s0, b).0);
                }
                Result::Ok(CPUIterationDecision::Continue)
            },
            Instruction::LDVxFromK(register) => {
                match self.active_key {
                    Option::Some(key) => {
                        self.set_register(register, key);
                        self.waiting_for_key_press = false;
                        self.advance_pc(2);
                        proof {
                            assert(self@ =~~= step_spec(s0, b).0);
                        }
                        Result::Ok(CPUIterationDecision::Continue)
                    },
                    Option::None => {
                        self.waiting_for_key_press = true;
                        proof {
                            assert(self@ =~~= step_spec(s0, b).0);
                        }
                        Result::Ok(CPUIterationDecision::Continue)
                    },
                }
            },
            Instruction::LDVxFromI(register) => {
                if self.memory_location >= 4096 - register as u16 {
                    return Result::Err(
                        Chip8Error::MemoryOutOfBounds { address: pc, index: self.memory_location },
                    );
                }
                self.load_registers_from_memory(register);
                self.advance_pc(2);
                proof {
                    assert(self@ =~~= step_spec(s0, b).0);
                }
                Result::Ok(CPUIterationDecision::Continue)
            },
            Instruction::LDF(register) => {
                let digit = self.get_register(register) & 0x0F;
                proof {
                    lemma_u8_low_nibble(s0.regs[register as int]);
                }
                let sprite_start = self.get_sprite_address(digit);
                self.memory_location = sprite_start;
                self.advance_pc(2);
                proof {
                    assert(self@ =~~= step_spec(s0, b).0);
                }
                Result::Ok(CPUIterationDecision::Continue)
            },
            Instruction::DRW(x, y, byte_length) => {
                let i = self.memory_location;
                if (i as u32) + (byte_length as u32) > 4096 {
                    return Result::Err(Chip8Error::MemoryOutOfBounds { address: pc, index: i });
                }
                let x_val = self.get_register(x);
                let y_val = self.get_register(y);
                let mut sprite: Vec<u8> = Vec::new();
                let mut k: usize = 0;
                while k < byte_length as usize
                    invariant
                        self.wf(),
                        self@ == s0,
                        i == s0.index,
                        i + byte_length <= 4096,
                        k <= byte_length,
                        sprite@.len() == k,
                        forall|q: int| 0 <= q < k ==> sprite@[q] == s0.mem[i + q],
                    decreases byte_length - k,
                {
                    let byte = self.memory[i as usize + k];
                    sprite.push(byte);
                    k += 1;
                }
                proof {
                    assert(sprite@ =~= s0.mem.subrange(s0.index as int, s0.index + byte_length));
                }
                let did_erase = self.screen.draw_sprite(x_val as usize, y_val as usize, &sprite);
                self.set_register(
                    VF,
                    if did_erase {
                        1
                    } else {
                        0
                    },
                );
                self.advance_pc(2);
                proof {
                    assert((x_val as usize % 64) as int == s0.regs[x as int] as int % 64);
                    assert((y_val as usize % 32) as int == s0.regs[y as int] as int % 32);
                    assert(self@ =~~= step_spec(s0, b).0);
                }
                Result::Ok(CPUIterationDecision::Continue)
            },
            Instruction::SE(register, value) => {
                if self.get_register(register) == value {
                    self.advance_pc(4);
                } else {
                    self.advance_pc(2);
                }
                proof {
                    assert(self@ =~~= step_spec(s0, b).0);
                }
                Result::Ok(CPUIterationDecision::Continue)
            },
            Instruction::SNE(register, value) => {
                if self.get_register(register) != value {
                    self.advance_pc(4);
                } else {
                    self.advance_pc(2);
                }
                proof {
                    assert(self@ =~~= step_spec(s0, b).0);
                }
                Result::Ok(CPUIterationDecision::Continue)
            },
            Instruction::SEVxVy(x, y) => {
                if self.get_register(x) == self.get_register(y) {
                    self.advance_pc(4);
                } else {
                    self.advance_pc(2);
                }
                proof {
                    assert(self@ =~~= step_spec(s0, b).0);
                }
                Result::Ok(CPUIterationDecision::Continue)
            },
            Instruction::SNEVxVy(x, y) => {
                if self.get_register(x) != self.get_register(y) {
                    self.advance_pc(4);
                } else {
                    self.advance_pc(2);
                }
                proof {
                    assert(self@ =~~= step_spec(s0, b).0);
                }
                Result::Ok(CPUIterationDecision::Continue)
            },
            Instruction::LDVxFromVy(x, y) => {
                let value = self.get_register(y);
                self.set_register(x, value);
                self.advance_pc(2);
                proof {
                    assert(self@ =~~= step_spec(s0, b).0);
                }
                Result::Ok(CPUIterationDecision::Continue)
            },
            Instruction::LDDTFromVx(register) => {
                let value = self.get_register(register);
                self.delay_timer.set_value(value);
                self.advance_pc(2);
                proof {
                    assert(self@ =~~= step_spec(s0, b).0);
                }
                Result::Ok(CPUIterationDecision::Continue)
            },
            Instruction::LDSTFromVx(register) => {
                let value = self.get_register(register);
                self.sound_timer.set_value(value);
                self.advance_pc(2);
                proof {
                    assert(self@ =~~= step_spec(s0, b).0);
                }
                Result::Ok(CPUIterationDecision::Continue)
            },
            Instruction::LDVxFromDT(register) => {
                let value = self.delay_timer.get_value();
                self.set_register(register, value);
                self.advance_pc(2);
                proof {
                    assert(self@ =~~= step_spec(s0, b).0);
                }
                Result::Ok(CPUIterationDecision::Continue)
            },
            Instruction::AND(x, y) => {
                let vx = self.get_register(x);
                let vy = self.get_register(y);
                self.set_register(x, vx & vy);
                self.advance_pc(2);
                proof {
                    assert(self@ =~~= step_spec(s0, b).0);
                }
                Result::Ok(CPUIterationDecision::Continue)
            },
            Instruction::ADDIVx(register) => {
                let vx = self.get_register(register);
                self.memory_location = self.memory_location.wrapping_add(vx as u16);
                proof {
                    assert(self@.index == ((s0.index + s0.regs[register as int]) % 0x10000) as u16);
                }
                self.advance_pc(2);
                proof {
                    assert(self@ =~~= step_spec(s0, b).0);
                }
                Result::Ok(CPUIterationDecision::Continue)
            },
            Instruction::SKP(register) => {
                let value = self.get_register(register);
                let pressed = match self.active_key {
                    Option::Some(key) => key == value,
                    Option::None => false,
                };
                if pressed {
                    self.advance_pc(4);
                } else {
                    self.advance_pc(2);
                }
                proof {
                    assert(self@ =~~= step_spec(s0, b).0);
                }
                Result::Ok(CPUIterationDecision::Continue)
            },
            Instruction::SKNP(register) => {
                let value = self.get_register(register);
                let pressed = match self.active_key {
                    Option::Some(key) => key == value,
                    Option::None => false,
                };
                if !pressed {
                    self.advance_pc(4);
                } else {
                    self.advance_pc(2);
                }
                proof {
                    assert(self@ =~~= step_spec(s0, b).0);
                }
                Result::Ok(CPUIterationDecision::Continue)
            },
            Instruction::SUB(x, y) => {
                let vx = self.get_register(x);
                let vy = self.get_register(y);
                let not_borrow: u8 = if vx >= vy {
                    1
                } else {
                    0
                };
                self.set_register(VF, not_borrow);
                let sub_result = vx.wrapping_sub(vy);
                proof {
                    assert(sub_result == ((s0.regs[x as int] - s0.regs[y as int]) % 256) as u8);
                }
                self.set_register(x, sub_result);
                self.advance_pc(2);
                proof {
                    assert(self@ =~~= step_spec(s0, b).0);
                }
                Result::Ok(CPUIterationDecision::Continue)
            },
        }
    }

    /// One cycle of the interpreter: draws a random byte for `Cxkk` and
    /// performs [`step_spec`] with it.  To the caller the random byte is
    /// arbitrary: the postcondition holds for some byte, and every property
    /// of the cycle that does not depend on the random value follows.
    pub fn fetch_decode_execute(&mut self) -> (r: Result<CPUIterationDecision, Chip8Error>)
        requires
            old(self).wf(),
        ensures
            final(self).wf(),
            exists|b: u8|
                final(self)@ == #[trigger] step_spec(old(self)@, b).0 && r == step_spec(
                    old(self)@,
                    b,
                ).1,
    {
        let b = crate::rng::random_byte();
        let r = self.step_with_random(b);
        proof {
            assert(self@ == step_spec(old(self)@, b).0 && r == step_spec(old(self)@, b).1);
        }
        r
    }
}

impl Default for CPU {
    /// The same freshly constructed machine as [`CPU::new`].
    fn default() -> (cpu: CPU)
        ensures
            cpu.wf(),
            initial_cpu(cpu@),
    {
        CPU::new()
    }
}

/// No partial-state corruption: a cycle that reports a fatal error (an
/// unrecognized opcode, stack overflow or underflow, an out-of-range
/// access) leaves the machine state exactly as it was, inspectable for
/// diagnostics.
pub proof fn lemma_fatal_error_preserves_state(s: CpuView, b: u8)
    requires
        cpu_inv(s),
    ensures
        step_spec(s, b).1 is Err ==> step_spec(s, b).0 == s,
{
}

/// One cycle preserves the machine invariant, whatever instruction runs
/// and whatever byte the random source supplies.
pub proof fn lemma_step_preserves_inv(s: CpuView, b: u8)
    requires
        cpu_inv(s),
    ensures
        cpu_inv(step_spec(s, b).0),
{
    if !(s.waiting && s.key is None) && s.pc + 1 < 4096 {
        let op = opcode_at(s.mem, s.pc as int);
        if let InstructionParseResult::Parsed(inst) = parse_spec(op) {
            crate::instruction::lemma_parse_spec_wf(op);
            assert(cpu_inv(exec_spec(s, inst, b).0));
        }
    }
}

/// Loading a literal and reading it back: for every register `x` and
/// 8-bit literal `k`, executing `6xkk` leaves exactly `k` in `Vx`.
pub proof fn lemma_load_then_read(s: CpuView, b: u8, x: u8, k: u8)
    requires
        cpu_inv(s),
        x < 16,
    ensures
        exec_spec(s, Instruction::LD(x, k), b).0.regs[x as int] == k,
        exec_spec(s, Instruction::LD(x, k), b).1 == cont(),
{
}

/// Adding a literal: for every starting value, `7xkk` leaves
/// `(Vx + kk) mod 256` in `Vx`, wraps without carry, and touches no other
/// register - in particular `VF` is unaffected (only the register-register
/// add variant would set it).
pub proof fn lemma_add_literal(s: CpuView, b: u8, x: u8, kk: u8)
    requires
        cpu_inv(s),
        x < 16,
    ensures
        exec_spec(s, Instruction::ADD(x, kk), b).0.regs[x as int] == (s.regs[x as int] + kk) % 256,
        forall|r: int|
            0 <= r < 16 && r != x ==> exec_spec(s, Instruction::ADD(x, kk), b).0.regs[r]
                == s.regs[r],
        x != 15 ==> exec_spec(s, Instruction::ADD(x, kk), b).0.regs[15] == s.regs[15],
{
}

/// Call/return round trip: a call pushes the current program counter and
/// jumps; the matching return restores the program counter and the stack
/// pointer exactly, leaving registers and memory untouched.
pub proof fn lemma_call_ret_round_trip(s: CpuView, b: u8, addr: u16)
    requires
        cpu_inv(s),
        s.sp < 16,
    ensures
        ({
            let s1 = exec_spec(s, Instruction::CALL(addr), b).0;
            &&& s1.pc == addr
            &&& s1.sp == s.sp + 1
            &&& s1.stack[s.sp as int] == s.pc
            &&& ({
                let s2 = exec_spec(s1, Instruction::RET, b).0;
                &&& s2.pc == s.pc
                &&& s2.sp == s.sp
                &&& s2.regs == s.regs
                &&& s2.mem == s.mem
                &&& s2.screen == s.screen
            })
        }),
{
}

} // verus!
