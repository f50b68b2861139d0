use gb_emu::Memory;

fn bus() -> Memory {
    let mut rom = vec![0u8; 0x8000];
    rom[0x0000] = 0x31;
    rom[0x7FFF] = 0x7E;
    for i in 0..48 {
        rom[0x104 + i] = 0xC0 + i as u8;
    }
    Memory::new(&rom).expect("rom has a header")
}

#[test]
fn ram_round_trip_every_value() {
    let mut m = bus();
    for &addr in &[0x8000u16, 0x9FFF, 0xC000, 0xDFFF, 0xFE00, 0xFE9F, 0xFF80, 0xFFFE] {
        for v in 0..=255u8 {
            m.write(addr, v);
            assert_eq!(m.read(addr), v);
        }
    }
}

#[test]
fn rom_is_read_only() {
    let mut m = bus();
    assert_eq!(m.read(0x0000), 0x31);
    assert_eq!(m.read(0x7FFF), 0x7E);
    m.write(0x0000, 0x99);
    assert_eq!(m.read(0x0000), 0x31);
}

#[test]
fn rom_beyond_image_reads_zero() {
    let mut rom = vec![0xAAu8; 0x150];
    rom[0x14F] = 0x5D;
    let m = Memory::new(&rom).unwrap();
    assert_eq!(m.read(0x14F), 0x5D);
    assert_eq!(m.read(0x150), 0x00);
}

#[test]
fn unmapped_addresses_are_fail_soft() {
    let mut m = bus();
    for &addr in &[0xA000u16, 0xBFFF, 0xE000, 0xFDFF, 0xFEA0, 0xFEFF] {
        m.write(addr, 0x42);
        assert_eq!(m.read(addr), 0);
    }
}

#[test]
fn display_registers_alias_renderer_fields() {
    let mut m = bus();
    m.write(0xFF42, 0x11);
    m.write(0xFF43, 0x22);
    m.write(0xFF47, 0x33);
    m.write(0xFF48, 0x44);
    m.write(0xFF49, 0x55);
    m.write(0xFF4A, 0x66);
    m.write(0xFF4B, 0x77);
    m.write(0xFF40, 0x88);
    m.write(0xFF41, 0x99);
    assert_eq!(
        (m.ppu.scy, m.ppu.scx, m.ppu.bgp, m.ppu.obp0, m.ppu.obp1, m.ppu.wy, m.ppu.wx),
        (0x11, 0x22, 0x33, 0x44, 0x55, 0x66, 0x77)
    );
    assert_eq!((m.ppu.lcdc, m.ppu.stat), (0x88, 0x99));
    assert_eq!(m.read(0xFF4B), 0x77);
    assert_eq!(m.io[0x42], 0);
}

#[test]
fn scanline_register_reads_renderer_line() {
    let mut m = bus();
    m.ppu.line = 37;
    assert_eq!(m.read(0xFF44), 37);
    m.write(0xFF44, 5);
    assert_eq!(m.read(0xFF44), 37);
    assert_eq!(m.io[0x44], 5);
}

#[test]
fn interrupt_registers() {
    let mut m = bus();
    assert_eq!(m.read(0xFF0F), 0xE1);
    assert_eq!(m.read(0xFFFF), 0x01);
    m.write(0xFF0F, 0x04);
    m.write(0xFFFF, 0x1F);
    assert_eq!((m.if_, m.ie), (0x04, 0x1F));
    m.write(0xFF01, 0x12);
    assert_eq!(m.read(0xFF01), 0x12);
    assert_eq!(m.io[0x01], 0x12);
}

#[test]
fn post_boot_state() {
    let m = bus();
    assert_eq!(m.ppu.lcdc, 0x91);
    assert_eq!(m.ppu.stat, 0x85);
    assert_eq!(m.ppu.bgp, 0xFC);
    assert_eq!((m.ppu.obp0, m.ppu.obp1), (0xFF, 0xFF));
    assert_eq!((m.ppu.scx, m.ppu.scy, m.ppu.wx, m.ppu.wy), (0, 0, 0, 0));
    assert!(m.wram.iter().all(|&b| b == 0));
    assert!(m.hram.iter().all(|&b| b == 0));
}

#[test]
fn boot_video_ram_pattern() {
    let m = bus();
    let v = &m.ppu.vram;
    assert!(v[0..16].iter().all(|&b| b == 0xFF));
    assert_eq!(&v[16..20], &[0xAA, 0xAA, 0x55, 0x55]);
    assert_eq!(&v[32..36], &[0xFF, 0xFF, 0x81, 0x81]);
    assert_eq!(&v[46..48], &[0xFF, 0xFF]);
    assert_eq!(&v[48..52], &[0x01, 0x01, 0x02, 0x02]);
    assert_eq!(&v[62..64], &[0x80, 0x80]);
    assert_eq!(v[64], 0);
    assert_eq!(v[0x100], 0xC0);
    assert_eq!(v[0x12F], 0xEF);
    assert_eq!(v[0x1800], 0);
    assert_eq!(v[0x1801], 1);
    assert_eq!(v[0x1800 + 32 + 3], 0);
    assert_eq!(v[0x1800 + 2 * 32 + 3], 1);
    assert_eq!(v[0x18AA], 0x10);
    assert_eq!(v[0x18B5], 0x1B);
    assert_eq!(v[0x18B6], ((5 + 22) % 4) as u8);
    assert_eq!(v[0x1C00], 0);
}

#[test]
fn handle_interrupts_clears_lowest_pending() {
    let mut m = bus();
    m.if_ = 0x16;
    m.ie = 0x14;
    assert!(m.handle_interrupts());
    assert_eq!(m.if_, 0x12);
    assert!(m.handle_interrupts());
    assert_eq!(m.if_, 0x02);
    assert!(!m.handle_interrupts());
    assert_eq!(m.if_, 0x02);
    m.if_ = 0xE0;
    m.ie = 0xFF;
    assert!(!m.handle_interrupts());
    assert_eq!(m.if_, 0xE0);
}

#[test]
fn vblank_entry_sets_interrupt_flag() {
    let mut m = bus();
    m.if_ = 0;
    m.ppu.mode = 0;
    m.ppu.line = 143;
    m.ppu.mode_clock = 200;
    m.step_ppu(4);
    assert_eq!(m.ppu.mode, 1);
    assert_eq!(m.ppu.line, 144);
    assert_eq!(m.if_, 0x01);
    assert!(!m.ppu.vblank_interrupt);
    m.if_ = 0;
    m.step_ppu(4);
    assert_eq!(m.if_, 0);
}

#[test]
fn mapped_addresses() {
    let m = bus();
    assert!(m.is_mapped(0x0000));
    assert!(m.is_mapped(0x7FFF));
    assert!(m.is_mapped(0x8000));
    assert!(m.is_mapped(0xC000));
    assert!(m.is_mapped(0xFE9F));
    assert!(m.is_mapped(0xFF00));
    assert!(m.is_mapped(0xFFFF));
    assert!(!m.is_mapped(0xA000));
    assert!(!m.is_mapped(0xE000));
    assert!(!m.is_mapped(0xFEA0));
    let small = Memory::new(&vec![0u8; 0x150]).unwrap();
    assert!(small.is_mapped(0x14F));
    assert!(!small.is_mapped(0x150));
}
