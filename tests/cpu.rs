use gb_emu::cpu::{is_implemented, is_implemented_escaped};
use gb_emu::{Cpu, LoadError, Memory};

fn rom_with_program(program: &[u8]) -> Vec<u8> {
    let mut rom = vec![0u8; 0x8000];
    rom[0x100..0x100 + program.len()].copy_from_slice(program);
    rom
}

fn boot(program: &[u8]) -> (Cpu, Memory) {
    let memory = Memory::new(&rom_with_program(program)).expect("rom has a header");
    (Cpu::new(), memory)
}

#[test]
fn post_boot_registers() {
    let cpu = Cpu::new();
    assert_eq!(cpu.pc, 0x0100);
    assert_eq!(cpu.sp, 0xFFFE);
    assert_eq!((cpu.a, cpu.f), (0x01, 0xB0));
    assert_eq!((cpu.b, cpu.c, cpu.d, cpu.e, cpu.h, cpu.l), (0x00, 0x13, 0x00, 0xD8, 0x01, 0x4D));
    assert_eq!(cpu.total_cycles, 0);
    assert!(!cpu.ime);
}

#[test]
fn jump_absolute() {
    let (mut cpu, mut memory) = boot(&[0xC3, 0x50, 0x01]);
    assert_eq!(cpu.step(&mut memory), 16);
    assert_eq!(cpu.pc, 0x0150);
}

#[test]
fn xor_a_clears_accumulator() {
    let (mut cpu, mut memory) = boot(&[0xAF]);
    assert_eq!(cpu.step(&mut memory), 4);
    assert_eq!(cpu.a, 0x00);
    assert_eq!(cpu.f, 0x80);
    assert_eq!(cpu.pc, 0x0101);
}

#[test]
fn load_immediate_into_a() {
    let (mut cpu, mut memory) = boot(&[0x3E, 0x42]);
    assert_eq!(cpu.step(&mut memory), 8);
    assert_eq!(cpu.a, 0x42);
    assert_eq!(cpu.pc, 0x0102);
}

#[test]
fn compare_equal_sets_zero() {
    let (mut cpu, mut memory) = boot(&[0xFE, 0x42]);
    cpu.a = 0x42;
    assert_eq!(cpu.step(&mut memory), 8);
    assert_eq!(cpu.f, 0x80);
}

#[test]
fn compare_unequal_clears_flags() {
    let (mut cpu, mut memory) = boot(&[0xFE, 0x41]);
    cpu.a = 0x42;
    assert_eq!(cpu.step(&mut memory), 8);
    assert_eq!(cpu.f, 0x00);
}

#[test]
fn watchdog_after_restart_38() {
    let (mut cpu, mut memory) = boot(&[0xFF]);
    assert_eq!(cpu.step(&mut memory), 16);
    assert_eq!(cpu.pc, 0x0038);
    assert_eq!(cpu.step(&mut memory), 20);
    assert_eq!(cpu.pc, 0x0100);
    assert!(cpu.ime);
    assert_eq!(memory.if_, 0xFF);
    assert_eq!(memory.ie, 0xFF);
    assert_eq!(memory.read(0xFF40), 0x91);
    assert_eq!(memory.read(0xFF47), 0xFC);
}

#[test]
fn watchdog_after_cycle_budget() {
    let (mut cpu, mut memory) = boot(&[0x00]);
    cpu.total_cycles = 50_001;
    assert_eq!(cpu.step(&mut memory), 20);
    assert_eq!(cpu.pc, 0x0100);
    assert_eq!(cpu.total_cycles, 50_001);
}

#[test]
fn pending_interrupt_enables_ime() {
    let (mut cpu, mut memory) = boot(&[0x00]);
    // The bus starts with the VBlank bit both requested and enabled.
    assert!(!cpu.ime);
    cpu.step(&mut memory);
    assert!(cpu.ime);
}

#[test]
fn disable_interrupts() {
    let (mut cpu, mut memory) = boot(&[0xF3]);
    memory.if_ = 0;
    cpu.ime = true;
    assert_eq!(cpu.step(&mut memory), 4);
    assert!(!cpu.ime);
}

#[test]
fn unknown_opcode_skips_one_byte() {
    let (mut cpu, mut memory) = boot(&[0xD3]);
    assert_eq!(cpu.step(&mut memory), 4);
    assert_eq!(cpu.pc, 0x0101);
    assert_eq!(cpu.total_cycles, 4);
}

#[test]
fn relative_jumps_count_from_instruction_end() {
    let (mut cpu, mut memory) = boot(&[0x18, 0xFE]);
    assert_eq!(cpu.step(&mut memory), 12);
    assert_eq!(cpu.pc, 0x0100);
    let (mut cpu, mut memory) = boot(&[0x18, 0x05]);
    cpu.step(&mut memory);
    assert_eq!(cpu.pc, 0x0107);
}

#[test]
fn conditional_relative_jumps() {
    let (mut cpu, mut memory) = boot(&[0x28, 0x10]);
    cpu.f = 0x80;
    assert_eq!(cpu.step(&mut memory), 12);
    assert_eq!(cpu.pc, 0x0112);
    let (mut cpu, mut memory) = boot(&[0x28, 0x10]);
    cpu.f = 0x00;
    assert_eq!(cpu.step(&mut memory), 8);
    assert_eq!(cpu.pc, 0x0102);
    let (mut cpu, mut memory) = boot(&[0x20, 0x10]);
    cpu.f = 0x00;
    assert_eq!(cpu.step(&mut memory), 12);
    assert_eq!(cpu.pc, 0x0112);
    let (mut cpu, mut memory) = boot(&[0x20, 0x10]);
    cpu.f = 0x80;
    assert_eq!(cpu.step(&mut memory), 8);
    assert_eq!(cpu.pc, 0x0102);
}

#[test]
fn call_pushes_return_address() {
    let (mut cpu, mut memory) = boot(&[0xCD, 0x00, 0x02]);
    assert_eq!(cpu.step(&mut memory), 24);
    assert_eq!(cpu.pc, 0x0200);
    assert_eq!(cpu.sp, 0xFFFC);
    assert_eq!(memory.read(0xFFFD), 0x01);
    assert_eq!(memory.read(0xFFFC), 0x03);
}

#[test]
fn return_after_call() {
    let mut rom = rom_with_program(&[0xCD, 0x00, 0x02]);
    rom[0x200] = 0xC9;
    let mut memory = Memory::new(&rom).unwrap();
    let mut cpu = Cpu::new();
    assert_eq!(cpu.step(&mut memory), 24);
    assert_eq!((cpu.pc, cpu.sp), (0x0200, 0xFFFC));
    assert_eq!(cpu.step(&mut memory), 16);
    assert_eq!((cpu.pc, cpu.sp), (0x0103, 0xFFFE));
}

#[test]
fn opcode_classifiers() {
    for op in [0x00u8, 0xCD, 0x61, 0x21, 0xC3, 0x31, 0x3E, 0xFE, 0x28, 0x03, 0xAF, 0x18, 0xEA,
        0xF3, 0xE0, 0xFF, 0xC0, 0x01, 0xF0, 0x47, 0xCB, 0x20, 0xFA, 0x7F, 0x78, 0xC9] {
        assert!(is_implemented(op));
    }
    let known = (0..=255u8).filter(|&op| is_implemented(op)).count();
    assert_eq!(known, 26);
    assert!(!is_implemented(0xD3));
    assert!(is_implemented_escaped(0x87));
    assert!(!is_implemented_escaped(0x86));
}

#[test]
fn returns_pop_the_stack() {
    let (mut cpu, mut memory) = boot(&[0xC9]);
    cpu.sp = 0xC000;
    memory.write(0xC000, 0x34);
    memory.write(0xC001, 0x12);
    assert_eq!(cpu.step(&mut memory), 16);
    assert_eq!(cpu.pc, 0x1234);
    assert_eq!(cpu.sp, 0xC002);

    let (mut cpu, mut memory) = boot(&[0xC0]);
    cpu.sp = 0xC000;
    cpu.f = 0x00;
    memory.write(0xC000, 0x34);
    memory.write(0xC001, 0x12);
    assert_eq!(cpu.step(&mut memory), 20);
    assert_eq!(cpu.pc, 0x1234);

    let (mut cpu, mut memory) = boot(&[0xC0]);
    cpu.f = 0x80;
    assert_eq!(cpu.step(&mut memory), 8);
    assert_eq!(cpu.pc, 0x0101);
    assert_eq!(cpu.sp, 0xFFFE);
}

#[test]
fn sixteen_bit_loads() {
    let (mut cpu, mut memory) = boot(&[0x21, 0x34, 0x12, 0x01, 0x78, 0x56, 0x31, 0x00, 0xD0]);
    assert_eq!(cpu.step(&mut memory), 12);
    assert_eq!((cpu.h, cpu.l), (0x12, 0x34));
    assert_eq!(cpu.step(&mut memory), 12);
    assert_eq!((cpu.b, cpu.c), (0x56, 0x78));
    assert_eq!(cpu.step(&mut memory), 12);
    assert_eq!(cpu.sp, 0xD000);
    assert_eq!(cpu.pc, 0x0109);
}

#[test]
fn register_moves() {
    let (mut cpu, mut memory) = boot(&[0x61, 0x47, 0x78, 0x7F]);
    cpu.c = 0x99;
    cpu.a = 0x11;
    cpu.step(&mut memory);
    assert_eq!(cpu.h, 0x99);
    cpu.step(&mut memory);
    assert_eq!(cpu.b, 0x11);
    cpu.b = 0x22;
    cpu.step(&mut memory);
    assert_eq!(cpu.a, 0x22);
    assert_eq!(cpu.step(&mut memory), 4);
    assert_eq!(cpu.a, 0x22);
    assert_eq!(cpu.pc, 0x0104);
}

#[test]
fn increment_bc_wraps_and_keeps_flags() {
    let (mut cpu, mut memory) = boot(&[0x03, 0x03]);
    cpu.b = 0x12;
    cpu.c = 0xFF;
    let flags = cpu.f;
    assert_eq!(cpu.step(&mut memory), 8);
    assert_eq!((cpu.b, cpu.c), (0x13, 0x00));
    assert_eq!(cpu.f, flags);
    cpu.b = 0xFF;
    cpu.c = 0xFF;
    cpu.step(&mut memory);
    assert_eq!((cpu.b, cpu.c), (0x00, 0x00));
}

#[test]
fn memory_loads_and_stores() {
    let (mut cpu, mut memory) = boot(&[0xEA, 0x00, 0xC1, 0xFA, 0x01, 0xC1, 0xE0, 0x80, 0xF0, 0x81]);
    cpu.a = 0x5A;
    memory.write(0xC101, 0xA5);
    memory.write(0xFF81, 0x3C);
    assert_eq!(cpu.step(&mut memory), 16);
    assert_eq!(memory.read(0xC100), 0x5A);
    assert_eq!(cpu.step(&mut memory), 16);
    assert_eq!(cpu.a, 0xA5);
    assert_eq!(cpu.step(&mut memory), 12);
    assert_eq!(memory.read(0xFF80), 0xA5);
    assert_eq!(cpu.step(&mut memory), 12);
    assert_eq!(cpu.a, 0x3C);
    assert_eq!(cpu.pc, 0x010A);
}

#[test]
fn escaped_reset_bit_zero() {
    let (mut cpu, mut memory) = boot(&[0xCB, 0x87, 0xCB, 0x00]);
    cpu.a = 0xFF;
    assert_eq!(cpu.step(&mut memory), 8);
    assert_eq!(cpu.a, 0xFE);
    assert_eq!(cpu.pc, 0x0102);
    assert_eq!(cpu.step(&mut memory), 8);
    assert_eq!(cpu.a, 0xFE);
    assert_eq!(cpu.pc, 0x0104);
}

#[test]
fn step_advances_renderer_and_total() {
    let (mut cpu, mut memory) = boot(&[0x00; 30]);
    for _ in 0..20 {
        cpu.step(&mut memory);
    }
    assert_eq!(cpu.total_cycles, 80);
    assert_eq!(memory.ppu.mode, 3);
    assert_eq!(memory.read(0xFF41) & 3, 3);
}

#[test]
fn peek_reads_from_pc_and_wraps() {
    let (mut cpu, memory) = boot(&[0x3E, 0x42, 0xAF]);
    assert_eq!(cpu.peek_next_opcodes(&memory, 3), vec![0x3E, 0x42, 0xAF]);
    cpu.pc = 0xFFFE;
    let mut memory = memory;
    memory.write(0xFFFE, 0x77);
    memory.ie = 0x66;
    assert_eq!(cpu.peek_next_opcodes(&memory, 3), vec![0x77, 0x66, 0x00]);
}

#[test]
fn too_small_rom_is_refused() {
    assert_eq!(Memory::new(&vec![0u8; 0x14F]).err(), Some(LoadError::RomTooSmall));
    assert!(Memory::new(&vec![0u8; 0x150]).is_ok());
}
