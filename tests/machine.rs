use rusty_chip::cpu::{LoadError, CPU};
use rusty_chip::instruction::{decode, Instruction};
use rusty_chip::machine::Fault;

fn machine_with(rom: &[u8]) -> CPU {
    let mut cpu = CPU::new();
    cpu.load_rom(&rom.to_vec()).expect("program fits");
    cpu
}

fn run(rom: &[u8], steps: usize) -> CPU {
    let mut cpu = machine_with(rom);
    for _ in 0..steps {
        cpu.emulate_cycle_with(0);
    }
    cpu
}

#[test]
fn new_machine_is_initialised() {
    let cpu = CPU::new();
    assert_eq!(cpu.program_counter(), 0x200);
    assert_eq!(cpu.index_register(), 0);
    assert_eq!(cpu.stack_pointer(), 0);
    assert_eq!(cpu.delay_timer(), 0);
    assert_eq!(cpu.sound_timer(), 0);
    assert_eq!(cpu.last_fault(), None);
    assert!(!cpu.draw_flag());
    for x in 0..16 {
        assert_eq!(cpu.register(x), 0);
        assert!(!cpu.key_pressed(x));
    }
    // glyph 0 and glyph F
    assert_eq!(cpu.memory_at(0), 0xF0);
    assert_eq!(cpu.memory_at(1), 0x90);
    assert_eq!(cpu.memory_at(75), 0xF0);
    assert_eq!(cpu.memory_at(79), 0x80);
    assert_eq!(cpu.memory_at(80), 0);
    assert_eq!(cpu.memory_at(0x200), 0);
    assert!(cpu.framebuffer().iter().all(|&p| p == 0));
    assert_eq!(cpu.framebuffer().len(), 64 * 32);
}

#[test]
fn load_rom_installs_at_program_start() {
    let cpu = machine_with(&[0x12, 0x34, 0x56]);
    assert_eq!(cpu.memory_at(0x1FF), 0);
    assert_eq!(cpu.memory_at(0x200), 0x12);
    assert_eq!(cpu.memory_at(0x201), 0x34);
    assert_eq!(cpu.memory_at(0x202), 0x56);
    assert_eq!(cpu.memory_at(0x203), 0);
}

#[test]
fn load_rom_largest_that_fits() {
    let mut cpu = CPU::new();
    let rom = vec![0xAB; 0x1000 - 0x200];
    assert_eq!(cpu.load_rom(&rom), Ok(()));
    assert_eq!(cpu.memory_at(0xFFF), 0xAB);
}

#[test]
fn load_rom_too_large_is_refused() {
    let mut cpu = CPU::new();
    let rom = vec![0xAB; 0x1000 - 0x200 + 1];
    assert_eq!(cpu.load_rom(&rom), Err(LoadError::RomTooLarge));
    assert_eq!(cpu.memory_at(0x200), 0);
    assert_eq!(cpu.memory_at(0xFFF), 0);
}

#[test]
fn decode_is_total_and_pure() {
    for op in 0..=u16::MAX {
        assert_eq!(decode(op), decode(op));
    }
}

#[test]
fn decode_table() {
    assert_eq!(decode(0x0000), Instruction::NoOp);
    assert_eq!(decode(0x00E0), Instruction::ClearScreen);
    assert_eq!(decode(0x00EE), Instruction::Return);
    assert_eq!(decode(0x1ABC), Instruction::Jump(0xABC));
    assert_eq!(decode(0x2400), Instruction::Call(0x400));
    assert_eq!(decode(0x3A12), Instruction::SkipIfEqualImm(0xA, 0x12));
    assert_eq!(decode(0x4A12), Instruction::SkipIfNotEqualImm(0xA, 0x12));
    assert_eq!(decode(0x5AB0), Instruction::SkipIfEqualReg(0xA, 0xB));
    assert_eq!(decode(0x6A12), Instruction::SetImm(0xA, 0x12));
    assert_eq!(decode(0x7A12), Instruction::AddImm(0xA, 0x12));
    assert_eq!(decode(0x8AB0), Instruction::Assign(0xA, 0xB));
    assert_eq!(decode(0x8AB1), Instruction::Or(0xA, 0xB));
    assert_eq!(decode(0x8AB2), Instruction::And(0xA, 0xB));
    assert_eq!(decode(0x8AB3), Instruction::Xor(0xA, 0xB));
    assert_eq!(decode(0x8AB4), Instruction::Add(0xA, 0xB));
    assert_eq!(decode(0x8AB5), Instruction::Sub(0xA, 0xB));
    assert_eq!(decode(0x8AB6), Instruction::ShiftRight(0xA, 0xB));
    assert_eq!(decode(0x8AB7), Instruction::SubReversed(0xA, 0xB));
    assert_eq!(decode(0x8ABE), Instruction::ShiftLeft(0xA, 0xB));
    assert_eq!(decode(0x9AB0), Instruction::SkipIfNotEqualReg(0xA, 0xB));
    assert_eq!(decode(0xA123), Instruction::SetIndex(0x123));
    assert_eq!(decode(0xB123), Instruction::JumpOffset(0x123));
    assert_eq!(decode(0xCA12), Instruction::Random(0xA, 0x12));
    assert_eq!(decode(0xDAB5), Instruction::Draw(0xA, 0xB, 5));
    assert_eq!(decode(0xEA9E), Instruction::SkipIfKey(0xA));
    assert_eq!(decode(0xEAA1), Instruction::SkipIfNotKey(0xA));
    assert_eq!(decode(0xFA07), Instruction::GetDelay(0xA));
    assert_eq!(decode(0xFA0A), Instruction::AwaitKey(0xA));
    assert_eq!(decode(0xFA15), Instruction::SetDelay(0xA));
    assert_eq!(decode(0xFA18), Instruction::SetSound(0xA));
    assert_eq!(decode(0xFA1E), Instruction::AddIndex(0xA));
    assert_eq!(decode(0xFA29), Instruction::SetIndexToGlyph(0xA));
    assert_eq!(decode(0xFA33), Instruction::StoreBcd(0xA));
    assert_eq!(decode(0xFA55), Instruction::DumpRegisters(0xA));
    assert_eq!(decode(0xFA65), Instruction::LoadRegisters(0xA));
}

#[test]
fn decode_unknown_patterns() {
    assert_eq!(decode(0x0123), Instruction::Unknown(0, 1, 2, 3));
    assert_eq!(decode(0x5121), Instruction::Unknown(5, 1, 2, 1));
    assert_eq!(decode(0x812F), Instruction::Unknown(8, 1, 2, 0xF));
    assert_eq!(decode(0x9AB1), Instruction::Unknown(9, 0xA, 0xB, 1));
    assert_eq!(decode(0xE1FF), Instruction::Unknown(0xE, 1, 0xF, 0xF));
    assert_eq!(decode(0xF1FF), Instruction::Unknown(0xF, 1, 0xF, 0xF));
}

#[test]
fn fetch_is_big_endian() {
    let cpu = machine_with(&[0xA2, 0xF0]);
    assert_eq!(cpu.fetch(), Some(0xA2F0));
}

#[test]
fn add_with_carry() {
    // V0 = 0xFF, V1 = 0x01, V0 += V1
    let cpu = run(&[0x60, 0xFF, 0x61, 0x01, 0x80, 0x14], 3);
    assert_eq!(cpu.register(0), 0x00);
    assert_eq!(cpu.register(0xF), 1);
    assert_eq!(cpu.program_counter(), 0x206);
}

#[test]
fn add_without_carry() {
    let cpu = run(&[0x60, 0x01, 0x61, 0x01, 0x80, 0x14], 3);
    assert_eq!(cpu.register(0), 0x02);
    assert_eq!(cpu.register(0xF), 0);
}

#[test]
fn add_into_vf_keeps_flag() {
    // VF = 0xFF, V1 = 0x02, VF += V1: the flag overwrites the sum
    let cpu = run(&[0x6F, 0xFF, 0x61, 0x02, 0x8F, 0x14], 3);
    assert_eq!(cpu.register(0xF), 1);
}

#[test]
fn sub_with_borrow() {
    let cpu = run(&[0x60, 0x05, 0x61, 0x0A, 0x80, 0x15], 3);
    assert_eq!(cpu.register(0), 0xFB);
    assert_eq!(cpu.register(0xF), 0);
}

#[test]
fn sub_without_borrow() {
    let cpu = run(&[0x60, 0x0A, 0x61, 0x05, 0x80, 0x15], 3);
    assert_eq!(cpu.register(0), 0x05);
    assert_eq!(cpu.register(0xF), 1);
}

#[test]
fn reverse_subtract() {
    // V0 = 0x0A, V1 = 0x05, V0 = V1 - V0
    let cpu = run(&[0x60, 0x0A, 0x61, 0x05, 0x80, 0x17], 3);
    assert_eq!(cpu.register(0), 0xFB);
    assert_eq!(cpu.register(0xF), 0);
    let cpu = run(&[0x60, 0x05, 0x61, 0x0A, 0x80, 0x17], 3);
    assert_eq!(cpu.register(0), 0x05);
    assert_eq!(cpu.register(0xF), 1);
}

#[test]
fn shift_right_stores_low_bit() {
    let cpu = run(&[0x60, 0b0000_0011, 0x80, 0x06], 2);
    assert_eq!(cpu.register(0), 0b0000_0001);
    assert_eq!(cpu.register(0xF), 1);
}

#[test]
fn shift_left_stores_high_bit() {
    let cpu = run(&[0x60, 0b1000_0001, 0x80, 0x0E], 2);
    assert_eq!(cpu.register(0), 0b0000_0010);
    assert_eq!(cpu.register(0xF), 1);
    let cpu = run(&[0x60, 0b0100_0001, 0x80, 0x0E], 2);
    assert_eq!(cpu.register(0), 0b1000_0010);
    assert_eq!(cpu.register(0xF), 0);
}

#[test]
fn bitwise_ops_and_add_immediate() {
    let cpu = run(&[0x60, 0b1100, 0x61, 0b1010, 0x80, 0x11, 0x62, 0b1100, 0x82, 0x12, 0x63, 0b1100, 0x83, 0x13], 7);
    assert_eq!(cpu.register(0), 0b1110);
    assert_eq!(cpu.register(2), 0b1000);
    assert_eq!(cpu.register(3), 0b0110);
    let cpu = run(&[0x60, 0xFE, 0x70, 0x03, 0x81, 0x00], 3);
    assert_eq!(cpu.register(0), 0x01);
    assert_eq!(cpu.register(1), 0x01);
    assert_eq!(cpu.register(0xF), 0);
}

#[test]
fn draw_collision() {
    // I = 0x300 holds 0x80; V0 = V1 = 0; clear; draw; draw
    let mut rom = vec![0xA3, 0x00, 0x60, 0x00, 0x61, 0x00, 0x00, 0xE0, 0xD0, 0x11, 0xD0, 0x11];
    rom.resize(0x100, 0);
    rom.push(0x80);
    let mut cpu = machine_with(&rom);
    for _ in 0..4 {
        assert!(!cpu.emulate_cycle_with(0));
    }
    assert!(cpu.emulate_cycle_with(0));
    assert_eq!(cpu.pixel(0, 0), 1);
    assert_eq!(cpu.framebuffer().iter().filter(|&&p| p == 1).count(), 1);
    assert_eq!(cpu.register(0xF), 0);
    assert!(cpu.emulate_cycle_with(0));
    assert_eq!(cpu.pixel(0, 0), 0);
    assert_eq!(cpu.register(0xF), 1);
    assert!(cpu.framebuffer().iter().all(|&p| p == 0));
}

#[test]
fn draw_wraps_at_screen_edges() {
    // sprite 0xC0 (two pixels wide), two rows, at (63, 31)
    let mut rom = vec![0xA3, 0x00, 0x60, 63, 0x61, 31, 0xD0, 0x12];
    rom.resize(0x100, 0);
    rom.push(0xC0);
    rom.push(0xC0);
    let cpu = run(&rom, 4);
    assert_eq!(cpu.pixel(63, 31), 1);
    assert_eq!(cpu.pixel(0, 31), 1);
    assert_eq!(cpu.pixel(63, 0), 1);
    assert_eq!(cpu.pixel(0, 0), 1);
    assert_eq!(cpu.framebuffer().iter().filter(|&&p| p == 1).count(), 4);
    assert_eq!(cpu.register(0xF), 0);
}

#[test]
fn draw_font_glyph() {
    // V0 = 7, I = glyph(V0), V1 = V2 = 0, draw 5 rows
    let cpu = run(&[0x60, 0x07, 0xF0, 0x29, 0x61, 0x00, 0x62, 0x00, 0xD1, 0x25], 5);
    assert_eq!(cpu.index_register(), 35);
    // glyph 7 = F0 10 20 40 40
    let rows = [0xF0u8, 0x10, 0x20, 0x40, 0x40];
    for (y, row) in rows.iter().enumerate() {
        for x in 0..8 {
            let bit = (row >> (7 - x)) & 1;
            assert_eq!(cpu.pixel(x, y), bit);
        }
    }
}

#[test]
fn draw_past_end_of_memory_faults() {
    // I = 0xFFE, draw 3 rows
    let mut cpu = run(&[0xAF, 0xFE, 0xD0, 0x03], 1);
    assert!(!cpu.emulate_cycle_with(0));
    assert_eq!(cpu.last_fault(), Some(Fault::AddressOutOfRange));
    assert_eq!(cpu.program_counter(), 0x202);
}

#[test]
fn clear_screen_blanks_every_pixel() {
    let mut rom = vec![0xA3, 0x00, 0xD0, 0x01, 0x00, 0xE0];
    rom.resize(0x100, 0);
    rom.push(0xFF);
    let cpu = run(&rom, 2);
    assert_eq!(cpu.framebuffer().iter().filter(|&&p| p == 1).count(), 8);
    let cpu = run(&rom, 3);
    assert!(cpu.framebuffer().iter().all(|&p| p == 0));
    assert_eq!(cpu.program_counter(), 0x206);
}

#[test]
fn store_bcd() {
    let cpu = run(&[0x60, 234, 0xA3, 0x00, 0xF0, 0x33], 3);
    assert_eq!(cpu.memory_at(0x300), 2);
    assert_eq!(cpu.memory_at(0x301), 3);
    assert_eq!(cpu.memory_at(0x302), 4);
}

#[test]
fn store_bcd_at_end_of_memory_faults() {
    let cpu = run(&[0xAF, 0xFE, 0xF0, 0x33], 2);
    assert_eq!(cpu.last_fault(), Some(Fault::AddressOutOfRange));
    assert_eq!(cpu.memory_at(0xFFE), 0);
}

#[test]
fn dump_load_round_trip() {
    let rom = [
        0x60, 0x11, 0x61, 0x22, 0x62, 0x33, 0x63, 0x44, // V0..V3
        0xA3, 0x00, 0xF3, 0x55, // I = 0x300, dump V0..V3
        0x60, 0x00, 0x61, 0x00, 0x62, 0x00, 0x63, 0x00, // zero them
        0xF3, 0x65, // load V0..V3
    ];
    let mut cpu = machine_with(&rom);
    for _ in 0..6 {
        cpu.emulate_cycle_with(0);
    }
    assert_eq!(cpu.memory_at(0x300), 0x11);
    assert_eq!(cpu.memory_at(0x303), 0x44);
    assert_eq!(cpu.memory_at(0x304), 0);
    for _ in 0..5 {
        cpu.emulate_cycle_with(0);
    }
    assert_eq!(cpu.register(0), 0x11);
    assert_eq!(cpu.register(1), 0x22);
    assert_eq!(cpu.register(2), 0x33);
    assert_eq!(cpu.register(3), 0x44);
}

#[test]
fn dump_includes_vx() {
    let cpu = run(&[0x60, 0x01, 0xA3, 0x00, 0xF0, 0x55], 3);
    assert_eq!(cpu.memory_at(0x300), 0x01);
}

#[test]
fn call_return_round_trip() {
    let mut rom = vec![0x24, 0x00];
    rom.resize(0x200, 0);
    rom.extend_from_slice(&[0x00, 0xEE]);
    let mut cpu = machine_with(&rom);
    cpu.emulate_cycle_with(0);
    assert_eq!(cpu.program_counter(), 0x400);
    assert_eq!(cpu.stack_pointer(), 1);
    cpu.emulate_cycle_with(0);
    assert_eq!(cpu.program_counter(), 0x202);
    assert_eq!(cpu.stack_pointer(), 0);
    assert_eq!(cpu.last_fault(), None);
}

#[test]
fn stack_overflow_faults() {
    // 2200 calls itself forever
    let mut cpu = machine_with(&[0x22, 0x00]);
    for _ in 0..16 {
        cpu.emulate_cycle_with(0);
        assert_eq!(cpu.last_fault(), None);
    }
    assert_eq!(cpu.stack_pointer(), 16);
    cpu.emulate_cycle_with(0);
    assert_eq!(cpu.last_fault(), Some(Fault::StackOverflow));
    assert_eq!(cpu.stack_pointer(), 16);
    assert_eq!(cpu.program_counter(), 0x200);
}

#[test]
fn stack_underflow_faults() {
    let cpu = run(&[0x00, 0xEE], 1);
    assert_eq!(cpu.last_fault(), Some(Fault::StackUnderflow));
    assert_eq!(cpu.program_counter(), 0x200);
    assert_eq!(cpu.stack_pointer(), 0);
}

#[test]
fn timer_decay() {
    // V0 = 5, delay = V0, then no-ops
    let mut cpu = run(&[0x60, 0x05, 0xF0, 0x15], 2);
    assert_eq!(cpu.delay_timer(), 5);
    for n in 1..=8u8 {
        cpu.emulate_cycle_with(0);
        assert_eq!(cpu.delay_timer(), 5u8.saturating_sub(n));
    }
}

#[test]
fn sound_timer_decays_and_get_delay_reads_timer() {
    let mut cpu = run(&[0x60, 0x03, 0xF0, 0x18, 0xF0, 0x15, 0xF1, 0x07], 3);
    assert_eq!(cpu.sound_timer(), 2);
    assert_eq!(cpu.delay_timer(), 3);
    cpu.emulate_cycle_with(0);
    assert_eq!(cpu.register(1), 2);
    assert_eq!(cpu.sound_timer(), 1);
}

#[test]
fn skip_if_equal() {
    let cpu = run(&[0x60, 0x05, 0x30, 0x05], 2);
    assert_eq!(cpu.program_counter(), 0x202 + 4);
    let cpu = run(&[0x60, 0x05, 0x30, 0x06], 2);
    assert_eq!(cpu.program_counter(), 0x202 + 2);
}

#[test]
fn skip_variants() {
    assert_eq!(run(&[0x60, 0x05, 0x40, 0x06], 2).program_counter(), 0x206);
    assert_eq!(run(&[0x60, 0x05, 0x40, 0x05], 2).program_counter(), 0x204);
    assert_eq!(run(&[0x60, 0x05, 0x61, 0x05, 0x50, 0x10], 3).program_counter(), 0x208);
    assert_eq!(run(&[0x60, 0x05, 0x61, 0x06, 0x50, 0x10], 3).program_counter(), 0x206);
    assert_eq!(run(&[0x60, 0x05, 0x61, 0x06, 0x90, 0x10], 3).program_counter(), 0x208);
    assert_eq!(run(&[0x60, 0x05, 0x61, 0x05, 0x90, 0x10], 3).program_counter(), 0x206);
}

#[test]
fn key_skips_read_key_index_from_register() {
    let mut cpu = machine_with(&[0x60, 0x07, 0xE0, 0x9E]);
    cpu.set_key(7, true);
    cpu.emulate_cycle_with(0);
    cpu.emulate_cycle_with(0);
    assert_eq!(cpu.program_counter(), 0x206);
    let mut cpu = machine_with(&[0x60, 0x07, 0xE0, 0xA1]);
    cpu.set_key(7, true);
    cpu.emulate_cycle_with(0);
    cpu.emulate_cycle_with(0);
    assert_eq!(cpu.program_counter(), 0x204);
    // a register value above 15 names no key
    let cpu = run(&[0x60, 0x17, 0xE0, 0xA1], 2);
    assert_eq!(cpu.program_counter(), 0x206);
}

#[test]
fn await_key_stalls_until_pressed() {
    let mut cpu = machine_with(&[0xF3, 0x0A]);
    for _ in 0..3 {
        cpu.emulate_cycle_with(0);
        assert_eq!(cpu.program_counter(), 0x200);
    }
    cpu.set_key(9, true);
    cpu.set_key(4, true);
    cpu.emulate_cycle_with(0);
    assert_eq!(cpu.register(3), 4);
    assert_eq!(cpu.program_counter(), 0x202);
    assert!(cpu.key_pressed(9));
}

#[test]
fn index_register_ops() {
    // I = 0x100, V0 = 0x20, I += V0
    let cpu = run(&[0xA1, 0x00, 0x60, 0x20, 0xF0, 0x1E], 3);
    assert_eq!(cpu.index_register(), 0x120);
    // I = 0xFFF, V0 = 1, I += V0 leaves memory
    let cpu = run(&[0xAF, 0xFF, 0x60, 0x01, 0xF0, 0x1E], 3);
    assert_eq!(cpu.last_fault(), Some(Fault::AddressOutOfRange));
    assert_eq!(cpu.index_register(), 0xFFF);
    assert_eq!(cpu.program_counter(), 0x204);
}

#[test]
fn jumps() {
    assert_eq!(run(&[0x13, 0x45], 1).program_counter(), 0x345);
    assert_eq!(run(&[0x60, 0x10, 0xB3, 0x00], 2).program_counter(), 0x310);
}

#[test]
fn random_is_masked_by_immediate() {
    let cpu = run(&[0xC0, 0x0F], 1);
    assert_eq!(cpu.register(0), 0);
    let mut cpu = machine_with(&[0xC0, 0x0F]);
    cpu.emulate_cycle_with(0xAB);
    assert_eq!(cpu.register(0), 0x0B);
    for _ in 0..50 {
        let mut cpu = machine_with(&[0xC0, 0x3C]);
        cpu.emulate_cycle();
        assert_eq!(cpu.register(0) & !0x3C, 0);
        assert_eq!(cpu.program_counter(), 0x202);
    }
}

#[test]
fn unknown_instruction_is_reported_and_skipped() {
    let mut cpu = machine_with(&[0x51, 0x21, 0x60, 0x09]);
    assert!(!cpu.emulate_cycle());
    assert_eq!(cpu.last_fault(), Some(Fault::UnknownInstruction(0x5121)));
    assert_eq!(cpu.program_counter(), 0x202);
    cpu.emulate_cycle();
    assert_eq!(cpu.last_fault(), None);
    assert_eq!(cpu.register(0), 9);
}

#[test]
fn fetch_past_end_of_memory_faults() {
    let mut cpu = run(&[0x1F, 0xFF], 1);
    assert_eq!(cpu.program_counter(), 0xFFF);
    assert_eq!(cpu.fetch(), None);
    cpu.emulate_cycle_with(0);
    assert_eq!(cpu.last_fault(), Some(Fault::AddressOutOfRange));
    assert_eq!(cpu.program_counter(), 0xFFF);
}
