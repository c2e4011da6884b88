//! The executable machine.
use vstd::prelude::*;
use crate::display::{blit, SCREEN_HEIGHT, SCREEN_PIXELS, SCREEN_WIDTH};
use crate::instruction::{decode, lemma_decode_in_range, operands_in_range, Instruction};
use crate::machine::{
    dumped, execute, first_pressed, font, lemma_step_wf, loaded, step, Fault, MachineState,
    FONT_BYTES, GLYPH_BYTES, MEMORY_SIZE, NUM_KEYS, NUM_REGISTERS, PROGRAM_START, STACK_DEPTH,
};

verus! {

/// Relies on rand::random: it returns some value of `T`; nothing more is
/// promised of it.
pub assume_specification<T>[ rand::random::<T> ]() -> (r: T)
    where
        rand::distributions::Standard: rand::distributions::Distribution<T>,
;

/// Why a program could not be loaded.
#[derive(Clone, Copy, Debug, PartialEq, Eq, Structural)]
pub enum LoadError {
    /// The program does not fit between 0x200 and the end of memory.
    RomTooLarge,
}

/// Memory with `rom` written from the program start on.
pub open spec fn with_program(memory: Seq<u8>, rom: Seq<u8>) -> Seq<u8> {
    Seq::new(
        memory.len(),
        |a: int| if PROGRAM_START <= a < PROGRAM_START + rom.len() { rom[a - PROGRAM_START] } else { memory[a] },
    )
}

/// Instructions that only move PC, the stack or the screen as a whole.
spec fn is_control(ins: Instruction) -> bool {
    matches!(
        ins,
        Instruction::NoOp
            | Instruction::ClearScreen
            | Instruction::Return
            | Instruction::Jump(..)
            | Instruction::Call(..)
            | Instruction::SkipIfEqualImm(..)
            | Instruction::SkipIfNotEqualImm(..)
            | Instruction::SkipIfEqualReg(..)
            | Instruction::SkipIfNotEqualReg(..)
            | Instruction::JumpOffset(..)
            | Instruction::SkipIfKey(..)
            | Instruction::SkipIfNotKey(..)
            | Instruction::AwaitKey(..)
    )
}

/// Instructions that set one register, and perhaps VF.
spec fn is_register_op(ins: Instruction) -> bool {
    matches!(
        ins,
        Instruction::SetImm(..)
            | Instruction::AddImm(..)
            | Instruction::Assign(..)
            | Instruction::Or(..)
            | Instruction::And(..)
            | Instruction::Xor(..)
            | Instruction::Add(..)
            | Instruction::Sub(..)
            | Instruction::ShiftRight(..)
            | Instruction::SubReversed(..)
            | Instruction::ShiftLeft(..)
            | Instruction::Random(..)
            | Instruction::GetDelay(..)
    )
}

/// `a + b` wrapped to 8 bits.
fn add_wrapping(a: u8, b: u8) -> (r: u8)
    ensures
        r == ((a + b) % 256) as u8,
{
    a.wrapping_add(b)
}

/// `a - b` wrapped to 8 bits.
fn sub_wrapping(a: u8, b: u8) -> (r: u8)
    ensures
        r == ((a - b) % 256) as u8,
{
    a.wrapping_sub(b)
}

/// `2 * a` wrapped to 8 bits.
fn double_wrapping(a: u8) -> (r: u8)
    ensures
        r == ((a * 2) % 256) as u8,
{
    a.wrapping_mul(2)
}

/// A CHIP-8 machine: memory, registers, stack, timers, framebuffer, keypad.
pub struct CPU {
    memory: Vec<u8>,
    index_register: u16,
    gfx: Vec<u8>,
    program_counter: usize,
    v: Vec<u8>,
    delay_timer: u8,
    sound_timer: u8,
    stack: Vec<u16>,
    stack_pointer: usize,
    keypad: Vec<bool>,
    draw_flag: bool,
    fault: Option<Fault>,
}

impl View for CPU {
    type V = MachineState;

    closed spec fn view(&self) -> MachineState {
        MachineState {
            memory: self.memory@,
            v: self.v@,
            index: self.index_register,
            pc: self.program_counter as int,
            stack: self.stack@,
            sp: self.stack_pointer as int,
            delay_timer: self.delay_timer,
            sound_timer: self.sound_timer,
            gfx: self.gfx@,
            keypad: self.keypad@,
            draw: self.draw_flag,
            fault: self.fault,
        }
    }
}

impl CPU {
    /// A fresh machine: font preloaded at 0, PC at 0x200, all else zeroed.
    pub fn new() -> (cpu: CPU)
        ensures
            cpu@ == MachineState::initial(),
            cpu@.wf(),
    {
        let font_bytes: [u8; 80] = [
            0xF0, 0x90, 0x90, 0x90, 0xF0, 0x20, 0x60, 0x20, 0x20, 0x70, 0xF0, 0x10, 0xF0, 0x80, 0xF0, 0xF0,
            0x10, 0xF0, 0x10, 0xF0, 0x90, 0x90, 0xF0, 0x10, 0x10, 0xF0, 0x80, 0xF0, 0x10, 0xF0, 0xF0, 0x80,
            0xF0, 0x90, 0xF0, 0xF0, 0x10, 0x20, 0x40, 0x40, 0xF0, 0x90, 0xF0, 0x90, 0xF0, 0xF0, 0x90, 0xF0,
            0x10, 0xF0, 0xF0, 0x90, 0xF0, 0x90, 0x90, 0xE0, 0x90, 0xE0, 0x90, 0xE0, 0xF0, 0x80, 0x80, 0x80,
            0xF0, 0xE0, 0x90, 0x90, 0x90, 0xE0, 0xF0, 0x80, 0xF0, 0x80, 0xF0, 0xF0, 0x80, 0xF0, 0x80, 0x80,
        ];
        assert(font_bytes@ =~= font());
        let mut memory: Vec<u8> = vec![0u8; MEMORY_SIZE];
        let mut i: usize = 0;
        while i < FONT_BYTES
            invariant
                i <= FONT_BYTES,
                font_bytes@ == font(),
                memory@.len() == MEMORY_SIZE,
                forall|a: int| 0 <= a < MEMORY_SIZE ==> #[trigger] memory@[a] == if a < i { font()[a] } else { 0 },
            decreases FONT_BYTES - i,
        {
            memory.set(i, font_bytes[i]);
            i = i + 1;
        }
        let cpu = CPU {
            memory,
            index_register: 0,
            gfx: vec![0u8; SCREEN_PIXELS],
            program_counter: PROGRAM_START,
            v: vec![0u8; NUM_REGISTERS],
            delay_timer: 0,
            sound_timer: 0,
            stack: vec![0u16; STACK_DEPTH],
            stack_pointer: 0,
            keypad: vec![false; NUM_KEYS],
            draw_flag: false,
            fault: None,
        };
        let ghost init = MachineState::initial();
        assert(cpu.memory@ =~= init.memory);
        assert(cpu.gfx@ =~= init.gfx);
        assert(cpu.v@ =~= init.v);
        assert(cpu.stack@ =~= init.stack);
        assert(cpu.keypad@ =~= init.keypad);
        cpu
    }

    /// Sets register `x` and moves PC on, as most instructions do.
    fn write_reg(&mut self, x: u8, val: u8)
        requires
            old(self)@.wf(),
            x < NUM_REGISTERS,
            old(self).program_counter < MEMORY_SIZE,
        ensures
            final(self)@ == old(self)@.set_reg(x, val),
    {
        self.v.set(x as usize, val);
        self.program_counter = self.program_counter + 2;
    }

    /// Sets register `x`, then VF, and moves PC on.
    fn write_reg_flag(&mut self, x: u8, val: u8, flag: u8)
        requires
            old(self)@.wf(),
            x < NUM_REGISTERS,
            old(self).program_counter < MEMORY_SIZE,
        ensures
            final(self)@ == old(self)@.set_reg_flag(x, val, flag),
    {
        self.v.set(x as usize, val);
        self.v.set(0xF, flag);
        self.program_counter = self.program_counter + 2;
    }

    /// Moves PC on by 4 when `cond` holds, else by 2.
    fn skip_if(&mut self, cond: bool)
        requires
            old(self).program_counter < MEMORY_SIZE,
        ensures
            final(self)@ == old(self)@.advance(crate::machine::skip_by(cond)),
    {
        self.program_counter = self.program_counter + if cond { 4 } else { 2 };
    }

    /// The lowest pressed key, or 16 when none is.
    fn first_pressed_key(&self) -> (k: usize)
        requires
            self@.wf(),
        ensures
            k == first_pressed(self@.keypad, 0),
    {
        let mut k: usize = 0;
        while k < NUM_KEYS && !self.keypad[k]
            invariant
                k <= NUM_KEYS,
                self.keypad@.len() == NUM_KEYS,
                first_pressed(self.keypad@, 0) == first_pressed(self.keypad@, k as int),
            decreases NUM_KEYS - k,
        {
            k = k + 1;
        }
        k
    }

    /// Writes V0..=Vx to memory from I on.
    fn dump_registers(&mut self, x: u8)
        requires
            old(self)@.wf(),
            x < NUM_REGISTERS,
            old(self).index_register + x + 1 <= MEMORY_SIZE,
        ensures
            final(self)@ == (MachineState {
                memory: dumped(old(self)@.memory, old(self)@.v, old(self)@.index as int, x as int),
                ..old(self)@
            }),
    {
        let ghost before = self.memory@;
        let base = self.index_register as usize;
        let mut k: usize = 0;
        while k <= x as usize
            invariant
                k <= x + 1,
                x < NUM_REGISTERS,
                base + x + 1 <= MEMORY_SIZE,
                self.memory@.len() == MEMORY_SIZE,
                self.v@.len() == NUM_REGISTERS,
                before.len() == MEMORY_SIZE,
                forall|a: int| 0 <= a < MEMORY_SIZE ==> #[trigger] self.memory@[a] == if base <= a < base + k {
                    self.v@[a - base]
                } else {
                    before[a]
                },
                self.v == old(self).v,
                self.index_register == old(self).index_register,
                self.gfx == old(self).gfx,
                self.program_counter == old(self).program_counter,
                self.stack == old(self).stack,
                self.stack_pointer == old(self).stack_pointer,
                self.delay_timer == old(self).delay_timer,
                self.sound_timer == old(self).sound_timer,
                self.keypad == old(self).keypad,
                self.draw_flag == old(self).draw_flag,
                self.fault == old(self).fault,
                before == old(self).memory@,
            decreases x + 1 - k,
        {
            let val = self.v[k];
            self.memory.set(base + k, val);
            k = k + 1;
        }
        assert(self.memory@ =~= dumped(before, self.v@, base as int, x as int));
    }

    /// Reads V0..=Vx from memory from I on.
    fn load_registers(&mut self, x: u8)
        requires
            old(self)@.wf(),
            x < NUM_REGISTERS,
            old(self).index_register + x + 1 <= MEMORY_SIZE,
        ensures
            final(self)@ == (MachineState {
                v: loaded(old(self)@.v, old(self)@.memory, old(self)@.index as int, x as int),
                ..old(self)@
            }),
    {
        let ghost before = self.v@;
        let base = self.index_register as usize;
        let mut k: usize = 0;
        while k <= x as usize
            invariant
                k <= x + 1,
                x < NUM_REGISTERS,
                base + x + 1 <= MEMORY_SIZE,
                self.memory@.len() == MEMORY_SIZE,
                self.v@.len() == NUM_REGISTERS,
                before.len() == NUM_REGISTERS,
                forall|j: int| 0 <= j < NUM_REGISTERS ==> #[trigger] self.v@[j] == if j < k {
                    self.memory@[base + j]
                } else {
                    before[j]
                },
                self.memory == old(self).memory,
                self.index_register == old(self).index_register,
                self.gfx == old(self).gfx,
                self.program_counter == old(self).program_counter,
                self.stack == old(self).stack,
                self.stack_pointer == old(self).stack_pointer,
                self.delay_timer == old(self).delay_timer,
                self.sound_timer == old(self).sound_timer,
                self.keypad == old(self).keypad,
                self.draw_flag == old(self).draw_flag,
                self.fault == old(self).fault,
                before == old(self).v@,
            decreases x + 1 - k,
        {
            let val = self.memory[base + k];
            self.v.set(k, val);
            k = k + 1;
        }
        assert(self.v@ =~= loaded(before, self.memory@, base as int, x as int));
    }

    /// Executes a control-flow instruction.
    fn emulate_control(&mut self, ins: Instruction, random: u8)
        requires
            old(self)@.wf(),
            operands_in_range(ins),
            old(self).program_counter + 1 < MEMORY_SIZE,
            is_control(ins),
        ensures
            final(self)@ == execute(old(self)@, ins, random),
    {
        match ins {
            Instruction::NoOp => {
                self.program_counter = self.program_counter + 2;
            },
            Instruction::ClearScreen => {
                self.gfx = vec![0u8; SCREEN_PIXELS];
                assert(self.gfx@ =~= Seq::new(2048, |p: int| 0u8));
                self.program_counter = self.program_counter + 2;
            },
            Instruction::Return => {
                if self.stack_pointer == 0 {
                    self.fault = Some(Fault::StackUnderflow);
                } else {
                    self.stack_pointer = self.stack_pointer - 1;
                    self.program_counter = self.stack[self.stack_pointer] as usize;
                }
            },
            Instruction::Jump(nnn) => {
                self.program_counter = nnn as usize;
            },
            Instruction::Call(nnn) => {
                if self.stack_pointer >= STACK_DEPTH {
                    self.fault = Some(Fault::StackOverflow);
                } else {
                    self.stack.set(self.stack_pointer, (self.program_counter + 2) as u16);
                    self.stack_pointer = self.stack_pointer + 1;
                    self.program_counter = nnn as usize;
                }
            },
            Instruction::SkipIfEqualImm(x, nn) => {
                let cond = self.v[x as usize] == nn;
                self.skip_if(cond);
            },
            Instruction::SkipIfNotEqualImm(x, nn) => {
                let cond = self.v[x as usize] != nn;
                self.skip_if(cond);
            },
            Instruction::SkipIfEqualReg(x, y) => {
                let cond = self.v[x as usize] == self.v[y as usize];
                self.skip_if(cond);
            },
            Instruction::SkipIfNotEqualReg(x, y) => {
                let cond = self.v[x as usize] != self.v[y as usize];
                self.skip_if(cond);
            },
            Instruction::JumpOffset(nnn) => {
                self.program_counter = nnn as usize + self.v[0] as usize;
            },
            Instruction::SkipIfKey(x) => {
                let k = self.v[x as usize];
                let cond = (k as usize) < NUM_KEYS && self.keypad[k as usize];
                self.skip_if(cond);
            },
            Instruction::SkipIfNotKey(x) => {
                let k = self.v[x as usize];
                let cond = !((k as usize) < NUM_KEYS && self.keypad[k as usize]);
                self.skip_if(cond);
            },
            Instruction::AwaitKey(x) => {
                let k = self.first_pressed_key();
                if k < NUM_KEYS {
                    self.write_reg(x, k as u8);
                }
            },
            _ => {},
        }
    }

    /// Executes an instruction that sets a register.
    fn emulate_register_op(&mut self, ins: Instruction, random: u8)
        requires
            old(self)@.wf(),
            operands_in_range(ins),
            old(self).program_counter + 1 < MEMORY_SIZE,
            is_register_op(ins),
        ensures
            final(self)@ == execute(old(self)@, ins, random),
    {
        match ins {
            Instruction::SetImm(x, nn) => {
                self.write_reg(x, nn);
            },
            Instruction::AddImm(x, nn) => {
                let val = add_wrapping(self.v[x as usize], nn);
                self.write_reg(x, val);
            },
            Instruction::Assign(x, y) => {
                let val = self.v[y as usize];
                self.write_reg(x, val);
            },
            Instruction::Or(x, y) => {
                let val = self.v[x as usize] | self.v[y as usize];
                self.write_reg(x, val);
            },
            Instruction::And(x, y) => {
                let val = self.v[x as usize] & self.v[y as usize];
                self.write_reg(x, val);
            },
            Instruction::Xor(x, y) => {
                let val = self.v[x as usize] ^ self.v[y as usize];
                self.write_reg(x, val);
            },
            Instruction::Add(x, y) => {
                let (vx, vy) = (self.v[x as usize], self.v[y as usize]);
                let carry: u8 = if vx > 0xFF - vy { 1 } else { 0 };
                self.write_reg_flag(x, add_wrapping(vx, vy), carry);
            },
            Instruction::Sub(x, y) => {
                let (vx, vy) = (self.v[x as usize], self.v[y as usize]);
                let no_borrow: u8 = if vy > vx { 0 } else { 1 };
                self.write_reg_flag(x, sub_wrapping(vx, vy), no_borrow);
            },
            Instruction::ShiftRight(x, _) => {
                let vx = self.v[x as usize];
                self.write_reg_flag(x, vx >> 1, vx & 1);
            },
            Instruction::SubReversed(x, y) => {
                let (vx, vy) = (self.v[x as usize], self.v[y as usize]);
                let no_borrow: u8 = if vy < vx { 0 } else { 1 };
                self.write_reg_flag(x, sub_wrapping(vy, vx), no_borrow);
            },
            Instruction::ShiftLeft(x, _) => {
                let vx = self.v[x as usize];
                self.write_reg_flag(x, double_wrapping(vx), vx >> 7);
            },
            Instruction::Random(x, nn) => {
                self.write_reg(x, random & nn);
            },
            Instruction::GetDelay(x) => {
                let val = self.delay_timer;
                self.write_reg(x, val);
            },
            _ => {},
        }
    }

    /// Executes an instruction on memory, the index register, the timers or the screen, or an unknown one.
    fn emulate_memory_op(&mut self, ins: Instruction, random: u8)
        requires
            old(self)@.wf(),
            operands_in_range(ins),
            old(self).program_counter + 1 < MEMORY_SIZE,
            !is_control(ins),
            !is_register_op(ins),
        ensures
            final(self)@ == execute(old(self)@, ins, random),
    {
        match ins {
            Instruction::SetIndex(nnn) => {
                self.index_register = nnn;
                self.program_counter = self.program_counter + 2;
            },
            Instruction::Draw(x, y, n) => {
                if self.index_register as usize + n as usize > MEMORY_SIZE {
                    self.fault = Some(Fault::AddressOutOfRange);
                } else {
                    let (vx, vy) = (self.v[x as usize], self.v[y as usize]);
                    let collision = blit(
                        &mut self.gfx,
                        &self.memory,
                        self.index_register as usize,
                        n as usize,
                        vx,
                        vy,
                    );
                    self.v.set(0xF, if collision { 1 } else { 0 });
                    self.draw_flag = true;
                    self.program_counter = self.program_counter + 2;
                }
            },
            Instruction::SetDelay(x) => {
                self.delay_timer = self.v[x as usize];
                self.program_counter = self.program_counter + 2;
            },
            Instruction::SetSound(x) => {
                self.sound_timer = self.v[x as usize];
                self.program_counter = self.program_counter + 2;
            },
            Instruction::AddIndex(x) => {
                let target = self.index_register as usize + self.v[x as usize] as usize;
                if target >= MEMORY_SIZE {
                    self.fault = Some(Fault::AddressOutOfRange);
                } else {
                    self.index_register = target as u16;
                    self.program_counter = self.program_counter + 2;
                }
            },
            Instruction::SetIndexToGlyph(x) => {
                self.index_register = (self.v[x as usize] % 16) as u16 * GLYPH_BYTES as u16;
                self.program_counter = self.program_counter + 2;
            },
            Instruction::StoreBcd(x) => {
                let i = self.index_register as usize;
                if i + 3 > MEMORY_SIZE {
                    self.fault = Some(Fault::AddressOutOfRange);
                } else {
                    let vx = self.v[x as usize];
                    self.memory.set(i, vx / 100);
                    self.memory.set(i + 1, (vx / 10) % 10);
                    self.memory.set(i + 2, vx % 10);
                    self.program_counter = self.program_counter + 2;
                }
            },
            Instruction::DumpRegisters(x) => {
                if self.index_register as usize + x as usize + 1 > MEMORY_SIZE {
                    self.fault = Some(Fault::AddressOutOfRange);
                } else {
                    self.dump_registers(x);
                    self.program_counter = self.program_counter + 2;
                }
            },
            Instruction::LoadRegisters(x) => {
                if self.index_register as usize + x as usize + 1 > MEMORY_SIZE {
                    self.fault = Some(Fault::AddressOutOfRange);
                } else {
                    self.load_registers(x);
                    self.program_counter = self.program_counter + 2;
                }
            },
            Instruction::Unknown(a, b, c, d) => {
                let op = a as u16 * 0x1000 + b as u16 * 0x100 + c as u16 * 0x10 + d as u16;
                self.fault = Some(Fault::UnknownInstruction(op));
                self.program_counter = self.program_counter + 2;
            },
            _ => {},
        }
    }

    /// Executes one decoded instruction on a machine whose timers, draw flag
    /// and fault were already reset for this step.
    fn emulate(&mut self, ins: Instruction, random: u8)
        requires
            old(self)@.wf(),
            operands_in_range(ins),
            old(self).program_counter + 1 < MEMORY_SIZE,
        ensures
            final(self)@ == execute(old(self)@, ins, random),
    {
        match ins {
            Instruction::NoOp
            | Instruction::ClearScreen
            | Instruction::Return
            | Instruction::Jump(..)
            | Instruction::Call(..)
            | Instruction::SkipIfEqualImm(..)
            | Instruction::SkipIfNotEqualImm(..)
            | Instruction::SkipIfEqualReg(..)
            | Instruction::SkipIfNotEqualReg(..)
            | Instruction::JumpOffset(..)
            | Instruction::SkipIfKey(..)
            | Instruction::SkipIfNotKey(..)
            | Instruction::AwaitKey(..) => self.emulate_control(ins, random),
            Instruction::SetImm(..)
            | Instruction::AddImm(..)
            | Instruction::Assign(..)
            | Instruction::Or(..)
            | Instruction::And(..)
            | Instruction::Xor(..)
            | Instruction::Add(..)
            | Instruction::Sub(..)
            | Instruction::ShiftRight(..)
            | Instruction::SubReversed(..)
            | Instruction::ShiftLeft(..)
            | Instruction::Random(..)
            | Instruction::GetDelay(..) => self.emulate_register_op(ins, random),
            _ => self.emulate_memory_op(ins, random),
        }
    }

    /// Installs `rom` at 0x200. A program that does not fit below the end
    /// of memory is refused and the machine is left as it was.
    pub fn load_rom(&mut self, rom: &Vec<u8>) -> (r: Result<(), LoadError>)
        requires
            old(self)@.wf(),
        ensures
            final(self)@.wf(),
            rom@.len() > MEMORY_SIZE - PROGRAM_START ==> r == Err::<(), LoadError>(LoadError::RomTooLarge)
                && final(self)@ == old(self)@,
            rom@.len() <= MEMORY_SIZE - PROGRAM_START ==> r is Ok && final(self)@ == (MachineState {
                memory: with_program(old(self)@.memory, rom@),
                ..old(self)@
            }),
    {
        if rom.len() > MEMORY_SIZE - PROGRAM_START {
            return Err(LoadError::RomTooLarge);
        }
        let ghost before = self.memory@;
        let mut i: usize = 0;
        while i < rom.len()
            invariant
                i <= rom@.len(),
                rom@.len() <= MEMORY_SIZE - PROGRAM_START,
                before == old(self).memory@,
                self.memory@.len() == MEMORY_SIZE,
                forall|a: int| 0 <= a < MEMORY_SIZE ==> #[trigger] self.memory@[a] == if PROGRAM_START <= a
                    < PROGRAM_START + i {
                    rom@[a - PROGRAM_START]
                } else {
                    before[a]
                },
                self.v == old(self).v,
                self.index_register == old(self).index_register,
                self.gfx == old(self).gfx,
                self.program_counter == old(self).program_counter,
                self.stack == old(self).stack,
                self.stack_pointer == old(self).stack_pointer,
                self.delay_timer == old(self).delay_timer,
                self.sound_timer == old(self).sound_timer,
                self.keypad == old(self).keypad,
                self.draw_flag == old(self).draw_flag,
                self.fault == old(self).fault,
            decreases rom@.len() - i,
        {
            self.memory.set(PROGRAM_START + i, rom[i]);
            i = i + 1;
        }
        assert(self.memory@ =~= with_program(before, rom@));
        Ok(())
    }

    /// The opcode at PC, big-endian, if both of its bytes are in memory.
    pub fn fetch(&self) -> (op: Option<u16>)
        requires
            self@.wf(),
        ensures
            op == self@.fetch(),
    {
        if self.program_counter < MEMORY_SIZE - 1 {
            let hi = self.memory[self.program_counter] as u16;
            let lo = self.memory[self.program_counter + 1] as u16;
            Some((hi << 8) | lo)
        } else {
            None
        }
    }

    /// One fetch-decode-execute cycle, with `random` as the byte that a
    /// random instruction draws. Returns whether a sprite was drawn.
    pub fn emulate_cycle_with(&mut self, random: u8) -> (drew: bool)
        requires
            old(self)@.wf(),
        ensures
            final(self)@ == step(old(self)@, random),
            final(self)@.wf(),
            drew == final(self)@.draw,
    {
        proof {
            lemma_step_wf(self@, random);
        }
        let fetched = self.fetch();
        if self.delay_timer > 0 {
            self.delay_timer = self.delay_timer - 1;
        }
        if self.sound_timer > 0 {
            self.sound_timer = self.sound_timer - 1;
        }
        self.draw_flag = false;
        self.fault = None;
        match fetched {
            None => {
                self.fault = Some(Fault::AddressOutOfRange);
            },
            Some(op) => {
                proof {
                    lemma_decode_in_range(op);
                }
                self.emulate(decode(op), random);
            },
        }
        self.draw_flag
    }

    /// One fetch-decode-execute cycle; a random instruction draws its byte
    /// from the thread-local generator. Returns whether a sprite was drawn.
    pub fn emulate_cycle(&mut self) -> (drew: bool)
        requires
            old(self)@.wf(),
        ensures
            exists|random: u8| final(self)@ == step(old(self)@, random),
            final(self)@.wf(),
            drew == final(self)@.draw,
    {
        let random: u8 = rand::random();
        self.emulate_cycle_with(random)
    }

    /// Sets whether key `key` (0..=15) is held down.
    pub fn set_key(&mut self, key: usize, pressed: bool)
        requires
            old(self)@.wf(),
            key < NUM_KEYS,
        ensures
            final(self)@ == (MachineState { keypad: old(self)@.keypad.update(key as int, pressed), ..old(self)@ }),
            final(self)@.wf(),
    {
        self.keypad.set(key, pressed);
    }

    /// The framebuffer: 64x32 pixels, row-major, 1 = lit.
    pub fn framebuffer(&self) -> (gfx: &Vec<u8>)
        ensures
            gfx@ == self@.gfx,
    {
        &self.gfx
    }

    /// The pixel at column `x`, line `y`.
    pub fn pixel(&self, x: usize, y: usize) -> (p: u8)
        requires
            self@.wf(),
            x < SCREEN_WIDTH,
            y < SCREEN_HEIGHT,
        ensures
            p == self@.gfx[y * SCREEN_WIDTH + x],
    {
        self.gfx[y * SCREEN_WIDTH + x]
    }

    /// Register `x` (0..=15).
    pub fn register(&self, x: usize) -> (val: u8)
        requires
            self@.wf(),
            x < NUM_REGISTERS,
        ensures
            val == self@.v[x as int],
    {
        self.v[x]
    }

    /// The byte at `addr`.
    pub fn memory_at(&self, addr: usize) -> (val: u8)
        requires
            self@.wf(),
            addr < MEMORY_SIZE,
        ensures
            val == self@.memory[addr as int],
    {
        self.memory[addr]
    }

    /// The index register I.
    pub fn index_register(&self) -> (i: u16)
        ensures
            i == self@.index,
    {
        self.index_register
    }

    /// The program counter.
    pub fn program_counter(&self) -> (pc: usize)
        ensures
            pc == self@.pc,
    {
        self.program_counter
    }

    /// The number of return addresses on the stack.
    pub fn stack_pointer(&self) -> (sp: usize)
        ensures
            sp == self@.sp,
    {
        self.stack_pointer
    }

    /// The delay timer.
    pub fn delay_timer(&self) -> (t: u8)
        ensures
            t == self@.delay_timer,
    {
        self.delay_timer
    }

    /// The sound timer; a tone should sound while it is nonzero.
    pub fn sound_timer(&self) -> (t: u8)
        ensures
            t == self@.sound_timer,
    {
        self.sound_timer
    }

    /// Whether key `key` (0..=15) is held down.
    pub fn key_pressed(&self, key: usize) -> (down: bool)
        requires
            self@.wf(),
            key < NUM_KEYS,
        ensures
            down == self@.keypad[key as int],
    {
        self.keypad[key]
    }

    /// Whether the last step drew a sprite.
    pub fn draw_flag(&self) -> (d: bool)
        ensures
            d == self@.draw,
    {
        self.draw_flag
    }

    /// The fault the last step reported, if any.
    pub fn last_fault(&self) -> (f: Option<Fault>)
        ensures
            f == self@.fault,
    {
        self.fault
    }
}

} // verus!
