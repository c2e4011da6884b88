//! The abstract machine: its state, and what one step does to it.
//!
//! Timers decay once per step, not once per wall-clock tick: the caller sets
//! the playback rate by how often it steps the machine.
use vstd::prelude::*;
use crate::display::{collides, drawn, is_bitmap, lemma_drawn_bitmap};
use crate::instruction::{decode_spec, encode, lemma_decode_in_range, operands_in_range, Instruction};

verus! {

/// Bytes of addressable memory.
pub const MEMORY_SIZE: usize = 4096;

/// Where programs are loaded and execution starts.
pub const PROGRAM_START: usize = 0x200;

/// Number of general-purpose registers V0..VF.
pub const NUM_REGISTERS: usize = 16;

/// Capacity of the return-address stack.
pub const STACK_DEPTH: usize = 16;

/// Number of keys on the keypad.
pub const NUM_KEYS: usize = 16;

/// Bytes per font glyph.
pub const GLYPH_BYTES: usize = 5;

/// Number of font bytes preloaded at address 0.
pub const FONT_BYTES: usize = 80;

/// A guest-program fault reported by a step.
#[derive(Clone, Copy, Debug, PartialEq, Eq, Structural)]
pub enum Fault {
    /// The opcode matched no instruction; the step skipped it.
    UnknownInstruction(u16),
    /// A call with all stack slots in use; the machine does not advance.
    StackOverflow,
    /// A return with an empty stack; the machine does not advance.
    StackUnderflow,
    /// A fetch or memory access at an address at or above 4096, or an index
    /// register moved past 0xFFF; the machine does not advance.
    AddressOutOfRange,
}

/// The whole state of the machine, as mathematical values.
pub ghost struct MachineState {
    pub memory: Seq<u8>,
    /// Registers V0..VF.
    pub v: Seq<u8>,
    pub index: u16,
    pub pc: int,
    /// Return addresses; slots at and above `sp` are free.
    pub stack: Seq<u16>,
    pub sp: int,
    pub delay_timer: u8,
    pub sound_timer: u8,
    /// 64x32 pixels, row-major, each 0 or 1.
    pub gfx: Seq<u8>,
    pub keypad: Seq<bool>,
    /// Whether the last step drew a sprite.
    pub draw: bool,
    /// What went wrong in the last step, if anything.
    pub fault: Option<Fault>,
}

/// The font atlas: glyph `k` (0..=F) is 5 rows of a 4x5 bitmap at `5 * k`.
pub open spec fn font() -> Seq<u8> {
    seq![
        0xF0, 0x90, 0x90, 0x90, 0xF0, 0x20, 0x60, 0x20, 0x20, 0x70, 0xF0, 0x10, 0xF0, 0x80, 0xF0, 0xF0,
        0x10, 0xF0, 0x10, 0xF0, 0x90, 0x90, 0xF0, 0x10, 0x10, 0xF0, 0x80, 0xF0, 0x10, 0xF0, 0xF0, 0x80,
        0xF0, 0x90, 0xF0, 0xF0, 0x10, 0x20, 0x40, 0x40, 0xF0, 0x90, 0xF0, 0x90, 0xF0, 0xF0, 0x90, 0xF0,
        0x10, 0xF0, 0xF0, 0x90, 0xF0, 0x90, 0x90, 0xE0, 0x90, 0xE0, 0x90, 0xE0, 0xF0, 0x80, 0x80, 0x80,
        0xF0, 0xE0, 0x90, 0x90, 0x90, 0xE0, 0xF0, 0x80, 0xF0, 0x80, 0xF0, 0xF0, 0x80, 0xF0, 0x80, 0x80,
    ]
}

impl MachineState {
    /// The shape every reachable state has.
    pub open spec fn wf(self) -> bool {
        &&& self.memory.len() == MEMORY_SIZE
        &&& self.v.len() == NUM_REGISTERS
        &&& self.index < MEMORY_SIZE
        &&& 0 <= self.pc
        &&& self.stack.len() == STACK_DEPTH
        &&& 0 <= self.sp <= STACK_DEPTH
        &&& self.gfx.len() == 2048
        &&& is_bitmap(self.gfx)
        &&& self.keypad.len() == NUM_KEYS
    }

    /// The state right after creation: font at 0, PC at 0x200, all else zero.
    pub open spec fn initial() -> MachineState {
        MachineState {
            memory: Seq::new(MEMORY_SIZE as nat, |a: int| if a < FONT_BYTES { font()[a] } else { 0 }),
            v: Seq::new(NUM_REGISTERS as nat, |k: int| 0),
            index: 0,
            pc: PROGRAM_START as int,
            stack: Seq::new(STACK_DEPTH as nat, |k: int| 0),
            sp: 0,
            delay_timer: 0,
            sound_timer: 0,
            gfx: Seq::new(2048, |p: int| 0),
            keypad: Seq::new(NUM_KEYS as nat, |k: int| false),
            draw: false,
            fault: None,
        }
    }

    /// Register `x`.
    pub open spec fn reg(self, x: u8) -> u8 {
        self.v[x as int]
    }

    /// The opcode at PC, if both of its bytes are in memory.
    pub open spec fn fetch(self) -> Option<u16> {
        if 0 <= self.pc && self.pc + 1 < MEMORY_SIZE {
            Some(((self.memory[self.pc] as u16) << 8) | (self.memory[self.pc + 1] as u16))
        } else {
            None
        }
    }

    /// The same state, with PC moved on by `d`.
    pub open spec fn advance(self, d: int) -> MachineState {
        MachineState { pc: self.pc + d, ..self }
    }

    /// The same state, with a fault reported and nothing else changed.
    pub open spec fn faulted(self, f: Fault) -> MachineState {
        MachineState { fault: Some(f), ..self }
    }

    /// The same state, with register `x` set to `val`, then PC moved on.
    pub open spec fn set_reg(self, x: u8, val: u8) -> MachineState {
        MachineState { v: self.v.update(x as int, val), ..self }.advance(2)
    }

    /// The same state, with register `x` set to `val` and then VF to `flag`,
    /// so that the flag wins when `x` is VF; then PC moved on.
    pub open spec fn set_reg_flag(self, x: u8, val: u8, flag: u8) -> MachineState {
        MachineState { v: self.v.update(x as int, val).update(15, flag), ..self }.advance(2)
    }

    /// Step protocol before the instruction runs: timers decay (flooring at
    /// 0), the draw flag and the fault are cleared.
    pub open spec fn tick(self) -> MachineState {
        MachineState {
            delay_timer: if self.delay_timer > 0 { (self.delay_timer - 1) as u8 } else { 0 },
            sound_timer: if self.sound_timer > 0 { (self.sound_timer - 1) as u8 } else { 0 },
            draw: false,
            fault: None,
            ..self
        }
    }
}

/// A skip instruction's PC increment.
pub open spec fn skip_by(cond: bool) -> int {
    if cond { 4 } else { 2 }
}

/// Whether the key named by `k` is pressed; a value above 15 names no key.
pub open spec fn key_down(keypad: Seq<bool>, k: u8) -> bool {
    k < NUM_KEYS && keypad[k as int]
}

/// The lowest pressed key at or above `from`, or 16 when there is none.
pub open spec fn first_pressed(keypad: Seq<bool>, from: int) -> int
    decreases NUM_KEYS - from,
{
    if from >= NUM_KEYS {
        NUM_KEYS as int
    } else if keypad[from] {
        from
    } else {
        first_pressed(keypad, from + 1)
    }
}

/// Memory with registers V0..=Vx written from address `i` on.
pub open spec fn dumped(memory: Seq<u8>, v: Seq<u8>, i: int, x: int) -> Seq<u8> {
    Seq::new(memory.len(), |a: int| if i <= a <= i + x { v[a - i] } else { memory[a] })
}

/// Registers with V0..=Vx read from memory at address `i` on.
pub open spec fn loaded(v: Seq<u8>, memory: Seq<u8>, i: int, x: int) -> Seq<u8> {
    Seq::new(v.len(), |k: int| if k <= x { memory[i + k] } else { v[k] })
}

/// What executing `ins` does to state `s` (already ticked); `random` is the
/// byte the random instruction draws.
pub open spec fn execute(s: MachineState, ins: Instruction, random: u8) -> MachineState {
    match ins {
        Instruction::NoOp => s.advance(2),
        Instruction::ClearScreen => MachineState { gfx: Seq::new(2048, |p: int| 0), ..s }.advance(2),
        Instruction::Return => if s.sp == 0 {
            s.faulted(Fault::StackUnderflow)
        } else {
            MachineState { pc: s.stack[s.sp - 1] as int, sp: s.sp - 1, ..s }
        },
        Instruction::Jump(nnn) => MachineState { pc: nnn as int, ..s },
        Instruction::Call(nnn) => if s.sp >= STACK_DEPTH {
            s.faulted(Fault::StackOverflow)
        } else {
            MachineState {
                stack: s.stack.update(s.sp, (s.pc + 2) as u16),
                sp: s.sp + 1,
                pc: nnn as int,
                ..s
            }
        },
        Instruction::SkipIfEqualImm(x, nn) => s.advance(skip_by(s.reg(x) == nn)),
        Instruction::SkipIfNotEqualImm(x, nn) => s.advance(skip_by(s.reg(x) != nn)),
        Instruction::SkipIfEqualReg(x, y) => s.advance(skip_by(s.reg(x) == s.reg(y))),
        Instruction::SetImm(x, nn) => s.set_reg(x, nn),
        Instruction::AddImm(x, nn) => s.set_reg(x, ((s.reg(x) + nn) % 256) as u8),
        Instruction::Assign(x, y) => s.set_reg(x, s.reg(y)),
        Instruction::Or(x, y) => s.set_reg(x, s.reg(x) | s.reg(y)),
        Instruction::And(x, y) => s.set_reg(x, s.reg(x) & s.reg(y)),
        Instruction::Xor(x, y) => s.set_reg(x, s.reg(x) ^ s.reg(y)),
        Instruction::Add(x, y) => s.set_reg_flag(
            x,
            ((s.reg(x) + s.reg(y)) % 256) as u8,
            if s.reg(x) + s.reg(y) > 255 { 1 } else { 0 },
        ),
        Instruction::Sub(x, y) => s.set_reg_flag(
            x,
            ((s.reg(x) - s.reg(y)) % 256) as u8,
            if s.reg(y) > s.reg(x) { 0 } else { 1 },
        ),
        Instruction::ShiftRight(x, _) => s.set_reg_flag(x, s.reg(x) >> 1, s.reg(x) & 1),
        Instruction::SubReversed(x, y) => s.set_reg_flag(
            x,
            ((s.reg(y) - s.reg(x)) % 256) as u8,
            if s.reg(y) < s.reg(x) { 0 } else { 1 },
        ),
        Instruction::ShiftLeft(x, _) => s.set_reg_flag(x, ((s.reg(x) * 2) % 256) as u8, s.reg(x) >> 7),
        Instruction::SkipIfNotEqualReg(x, y) => s.advance(skip_by(s.reg(x) != s.reg(y))),
        Instruction::SetIndex(nnn) => MachineState { index: nnn, ..s }.advance(2),
        Instruction::JumpOffset(nnn) => MachineState { pc: nnn + s.reg(0), ..s },
        Instruction::Random(x, nn) => s.set_reg(x, random & nn),
        Instruction::Draw(x, y, n) => if s.index + n > MEMORY_SIZE {
            s.faulted(Fault::AddressOutOfRange)
        } else {
            let rows = s.memory.subrange(s.index as int, s.index + n);
            let collision = collides(s.gfx, rows, s.reg(x), s.reg(y));
            MachineState {
                gfx: drawn(s.gfx, rows, s.reg(x), s.reg(y)),
                v: s.v.update(15, if collision { 1 } else { 0 }),
                draw: true,
                ..s
            }.advance(2)
        },
        Instruction::SkipIfKey(x) => s.advance(skip_by(key_down(s.keypad, s.reg(x)))),
        Instruction::SkipIfNotKey(x) => s.advance(skip_by(!key_down(s.keypad, s.reg(x)))),
        Instruction::GetDelay(x) => s.set_reg(x, s.delay_timer),
        Instruction::AwaitKey(x) => {
            let k = first_pressed(s.keypad, 0);
            if k < NUM_KEYS {
                s.set_reg(x, k as u8)
            } else {
                s
            }
        },
        Instruction::SetDelay(x) => MachineState { delay_timer: s.reg(x), ..s }.advance(2),
        Instruction::SetSound(x) => MachineState { sound_timer: s.reg(x), ..s }.advance(2),
        Instruction::AddIndex(x) => if s.index + s.reg(x) >= MEMORY_SIZE {
            s.faulted(Fault::AddressOutOfRange)
        } else {
            MachineState { index: (s.index + s.reg(x)) as u16, ..s }.advance(2)
        },
        Instruction::SetIndexToGlyph(x) => MachineState {
            index: ((s.reg(x) % 16) * GLYPH_BYTES) as u16,
            ..s
        }.advance(2),
        Instruction::StoreBcd(x) => if s.index + 3 > MEMORY_SIZE {
            s.faulted(Fault::AddressOutOfRange)
        } else {
            let vx = s.reg(x);
            MachineState {
                memory: s.memory.update(s.index as int, vx / 100).update(
                    s.index + 1,
                    (vx / 10) % 10,
                ).update(s.index + 2, vx % 10),
                ..s
            }.advance(2)
        },
        Instruction::DumpRegisters(x) => if s.index + x + 1 > MEMORY_SIZE {
            s.faulted(Fault::AddressOutOfRange)
        } else {
            MachineState { memory: dumped(s.memory, s.v, s.index as int, x as int), ..s }.advance(2)
        },
        Instruction::LoadRegisters(x) => if s.index + x + 1 > MEMORY_SIZE {
            s.faulted(Fault::AddressOutOfRange)
        } else {
            MachineState { v: loaded(s.v, s.memory, s.index as int, x as int), ..s }.advance(2)
        },
        Instruction::Unknown(..) => s.faulted(Fault::UnknownInstruction(encode(ins) as u16)).advance(
            2,
        ),
    }
}

/// One fetch-decode-execute cycle from state `s`.
pub open spec fn step(s: MachineState, random: u8) -> MachineState {
    let t = s.tick();
    match s.fetch() {
        None => t.faulted(Fault::AddressOutOfRange),
        Some(op) => execute(t, decode_spec(op), random),
    }
}

/// Executing an instruction with in-range operands keeps the state's shape.
pub proof fn lemma_execute_wf(s: MachineState, ins: Instruction, random: u8)
    requires
        s.wf(),
        operands_in_range(ins),
    ensures
        execute(s, ins, random).wf(),
{
    match ins {
        Instruction::Draw(x, y, n) => {
            if s.index + n <= MEMORY_SIZE {
                let rows = s.memory.subrange(s.index as int, s.index + n);
                lemma_drawn_bitmap(s.gfx, rows, s.reg(x), s.reg(y));
            }
        },
        Instruction::ClearScreen => {
            let t = execute(s, ins, random);
            assert forall|p: int| 0 <= p < t.gfx.len() implies #[trigger] t.gfx[p] <= 1 by {};
        },
        _ => {},
    }
}

/// A step keeps the state's shape.
pub proof fn lemma_step_wf(s: MachineState, random: u8)
    requires
        s.wf(),
    ensures
        step(s, random).wf(),
{
    if let Some(op) = s.fetch() {
        lemma_decode_in_range(op);
        lemma_execute_wf(s.tick(), decode_spec(op), random);
    }
}

} // verus!
