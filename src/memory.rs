//! The address bus: decodes the 16-bit address space into the ROM image,
//! the RAM blocks, the renderer's memories and the register-mapped I/O.
use vstd::prelude::*;

use crate::ppu::{Ppu, PpuView, OAM_SIZE, VRAM_SIZE};

verus! {

pub const WRAM_SIZE: usize = 0x2000;
pub const IO_SIZE: usize = 0x80;
pub const HRAM_SIZE: usize = 0x7F;
/// Smallest ROM image that holds a complete cartridge header.
pub const MIN_ROM_SIZE: usize = 0x150;

pub const ADDR_IF: u16 = 0xFF0F;
pub const ADDR_LCDC: u16 = 0xFF40;
pub const ADDR_STAT: u16 = 0xFF41;
pub const ADDR_SCY: u16 = 0xFF42;
pub const ADDR_SCX: u16 = 0xFF43;
pub const ADDR_LY: u16 = 0xFF44;
pub const ADDR_BGP: u16 = 0xFF47;
pub const ADDR_OBP0: u16 = 0xFF48;
pub const ADDR_OBP1: u16 = 0xFF49;
pub const ADDR_WY: u16 = 0xFF4A;
pub const ADDR_WX: u16 = 0xFF4B;
pub const ADDR_IE: u16 = 0xFFFF;

/// Why a bus could not be built from a ROM image.
#[derive(Debug, Clone, Copy, PartialEq, Eq, Structural)]
pub enum LoadError {
    /// The image is shorter than a cartridge header.
    RomTooSmall,
}

/// The bus and the storage it owns: ROM image, work RAM, the I/O block,
/// high RAM, the two interrupt registers and the renderer.
pub struct Memory {
    pub rom: Vec<u8>,
    pub wram: [u8; WRAM_SIZE],
    pub io: [u8; IO_SIZE],
    pub hram: [u8; HRAM_SIZE],
    pub ie: u8,
    pub if_: u8,
    pub ppu: Ppu,
}

/// Mathematical model of the bus and everything it owns.
pub struct MemoryView {
    pub rom: Seq<u8>,
    pub wram: Seq<u8>,
    pub io: Seq<u8>,
    pub hram: Seq<u8>,
    pub ie: u8,
    pub if_: u8,
    pub ppu: PpuView,
}

impl View for Memory {
    type V = MemoryView;

    open spec fn view(&self) -> MemoryView {
        MemoryView {
            rom: self.rom@,
            wram: self.wram@,
            io: self.io@,
            hram: self.hram@,
            ie: self.ie,
            if_: self.if_,
            ppu: self.ppu@,
        }
    }
}

/// Addresses backed by plain RAM cells: video RAM, work RAM,
/// object-attribute memory and high RAM.
pub open spec fn is_ram_addr(addr: u16) -> bool {
    ||| 0x8000 <= addr <= 0x9FFF
    ||| 0xC000 <= addr <= 0xDFFF
    ||| 0xFE00 <= addr <= 0xFE9F
    ||| 0xFF80 <= addr <= 0xFFFE
}


/// Offset in video RAM of the first background tile map.
pub const BG_MAP_OFFSET: usize = 0x1800;
/// Offset in the ROM image of the logo bitmap that the header carries.
pub const LOGO_ROM_OFFSET: usize = 0x104;
/// Offset in video RAM where the logo bitmap is placed (tile 16 on).
pub const LOGO_VRAM_OFFSET: usize = 0x100;
pub const LOGO_SIZE: usize = 48;
/// Offset in video RAM of the tile-map row where the logo's twelve tiles
/// are laid out (row 5, column 10 of the first map).
pub const LOGO_MAP_OFFSET: usize = 0x18AA;
pub const LOGO_TILES: usize = 12;

/// Video RAM as the bus starts it: four test tiles (solid, checkerboard,
/// border, diagonal), the first tile map cycling through them, and the
/// header's logo copied into tiles 16 on and laid out on row 5.
pub open spec fn boot_vram_byte(rom: Seq<u8>, a: int) -> u8 {
    if a < 16 {
        0xFF
    } else if a < 32 {
        if ((a - 16) / 2) % 2 == 0 {
            0xAA
        } else {
            0x55
        }
    } else if a < 48 {
        let row = (a - 32) / 2;
        if row == 0 || row == 7 {
            0xFF
        } else {
            0x81
        }
    } else if a < 64 {
        1u8 << (((a - 48) / 2) as u8)
    } else if LOGO_VRAM_OFFSET <= a < LOGO_VRAM_OFFSET + LOGO_SIZE {
        rom[LOGO_ROM_OFFSET + (a - LOGO_VRAM_OFFSET)]
    } else if LOGO_MAP_OFFSET <= a < LOGO_MAP_OFFSET + LOGO_TILES {
        (0x10 + (a - LOGO_MAP_OFFSET)) as u8
    } else if BG_MAP_OFFSET <= a < BG_MAP_OFFSET + 0x400 {
        let m = a - BG_MAP_OFFSET;
        ((m / 32 + m % 32) % 4) as u8
    } else {
        0
    }
}

pub open spec fn boot_vram(rom: Seq<u8>) -> Seq<u8> {
    Seq::new(VRAM_SIZE as nat, |a: int| boot_vram_byte(rom, a))
}

/// The bit of the highest-priority interrupt that is both requested and
/// enabled among the five sources (VBlank, status, timer, serial, joypad),
/// or 0 when there is none.
pub open spec fn first_pending(active: u8) -> u8 {
    if active & 0x01 != 0 {
        0x01
    } else if active & 0x02 != 0 {
        0x02
    } else if active & 0x04 != 0 {
        0x04
    } else if active & 0x08 != 0 {
        0x08
    } else if active & 0x10 != 0 {
        0x10
    } else {
        0
    }
}

/// Addresses that some region or register decodes; every other address is
/// a miss that reads as 0 and ignores writes. ROM beyond the image is a
/// miss as well.
pub open spec fn is_mapped_spec(rom_len: nat, addr: u16) -> bool {
    ||| addr <= 0x7FFF && addr < rom_len
    ||| 0x8000 <= addr <= 0x9FFF
    ||| 0xC000 <= addr <= 0xDFFF
    ||| 0xFE00 <= addr <= 0xFE9F
    ||| 0xFF00 <= addr
}

impl MemoryView {
    pub open spec fn wf(self) -> bool {
        &&& self.wram.len() == WRAM_SIZE
        &&& self.io.len() == IO_SIZE
        &&& self.hram.len() == HRAM_SIZE
        &&& self.ppu.wf()
    }

    /// The byte that a read of `addr` returns. ROM beyond the image, and
    /// addresses that no region covers, read as 0.
    pub open spec fn read_spec(self, addr: u16) -> u8 {
        if addr <= 0x7FFF {
            if addr < self.rom.len() {
                self.rom[addr as int]
            } else {
                0
            }
        } else if addr <= 0x9FFF {
            self.ppu.vram[addr - 0x8000]
        } else if 0xC000 <= addr <= 0xDFFF {
            self.wram[addr - 0xC000]
        } else if 0xFE00 <= addr <= 0xFE9F {
            self.ppu.oam[addr - 0xFE00]
        } else if 0xFF00 <= addr <= 0xFF7F {
            if addr == ADDR_IF {
                self.if_
            } else if addr == ADDR_LCDC {
                self.ppu.lcdc
            } else if addr == ADDR_STAT {
                self.ppu.stat
            } else if addr == ADDR_SCY {
                self.ppu.scy
            } else if addr == ADDR_SCX {
                self.ppu.scx
            } else if addr == ADDR_LY {
                self.ppu.line
            } else if addr == ADDR_BGP {
                self.ppu.bgp
            } else if addr == ADDR_OBP0 {
                self.ppu.obp0
            } else if addr == ADDR_OBP1 {
                self.ppu.obp1
            } else if addr == ADDR_WY {
                self.ppu.wy
            } else if addr == ADDR_WX {
                self.ppu.wx
            } else {
                self.io[addr - 0xFF00]
            }
        } else if 0xFF80 <= addr <= 0xFFFE {
            self.hram[addr - 0xFF80]
        } else if addr == ADDR_IE {
            self.ie
        } else {
            0
        }
    }

    /// The bus after the renderer advances by `cycles`; entering VBlank sets
    /// the VBlank bit of the interrupt-flag register and the renderer's
    /// flag is consumed.
    pub open spec fn step_ppu_spec(self, cycles: u8) -> MemoryView {
        let p = self.ppu.step_spec(cycles as u32);
        if p.vblank_interrupt {
            MemoryView {
                ppu: PpuView { vblank_interrupt: false, ..p },
                if_: self.if_ | 0x01,
                ..self
            }
        } else {
            MemoryView { ppu: p, ..self }
        }
    }

    /// The bus after `value` is written to `addr`. ROM and addresses that no
    /// region covers ignore the write; the scanline readback register is
    /// not redirected, so a write there lands in the I/O block.
    pub open spec fn write_spec(self, addr: u16, value: u8) -> MemoryView {
        if 0x8000 <= addr <= 0x9FFF {
            MemoryView {
                ppu: PpuView { vram: self.ppu.vram.update(addr - 0x8000, value), ..self.ppu },
                ..self
            }
        } else if 0xC000 <= addr <= 0xDFFF {
            MemoryView { wram: self.wram.update(addr - 0xC000, value), ..self }
        } else if 0xFE00 <= addr <= 0xFE9F {
            MemoryView {
                ppu: PpuView { oam: self.ppu.oam.update(addr - 0xFE00, value), ..self.ppu },
                ..self
            }
        } else if 0xFF00 <= addr <= 0xFF7F {
            if addr == ADDR_IF {
                MemoryView { if_: value, ..self }
            } else if addr == ADDR_LCDC {
                MemoryView { ppu: PpuView { lcdc: value, ..self.ppu }, ..self }
            } else if addr == ADDR_STAT {
                MemoryView { ppu: PpuView { stat: value, ..self.ppu }, ..self }
            } else if addr == ADDR_SCY {
                MemoryView { ppu: PpuView { scy: value, ..self.ppu }, ..self }
            } else if addr == ADDR_SCX {
                MemoryView { ppu: PpuView { scx: value, ..self.ppu }, ..self }
            } else if addr == ADDR_BGP {
                MemoryView { ppu: PpuView { bgp: value, ..self.ppu }, ..self }
            } else if addr == ADDR_OBP0 {
                MemoryView { ppu: PpuView { obp0: value, ..self.ppu }, ..self }
            } else if addr == ADDR_OBP1 {
                MemoryView { ppu: PpuView { obp1: value, ..self.ppu }, ..self }
            } else if addr == ADDR_WY {
                MemoryView { ppu: PpuView { wy: value, ..self.ppu }, ..self }
            } else if addr == ADDR_WX {
                MemoryView { ppu: PpuView { wx: value, ..self.ppu }, ..self }
            } else {
                MemoryView { io: self.io.update(addr - 0xFF00, value), ..self }
            }
        } else if 0xFF80 <= addr <= 0xFFFE {
            MemoryView { hram: self.hram.update(addr - 0xFF80, value), ..self }
        } else if addr == ADDR_IE {
            MemoryView { ie: value, ..self }
        } else {
            self
        }
    }
}

/// Byte `a` of the boot video RAM.
fn boot_vram_at(rom: &Vec<u8>, a: usize) -> (r: u8)
    requires
        rom.len() >= MIN_ROM_SIZE,
        a < VRAM_SIZE,
    ensures
        r == boot_vram_byte(rom@, a as int),
{
    if a < 16 {
        0xFF
    } else if a < 32 {
        if ((a - 16) / 2) % 2 == 0 {
            0xAA
        } else {
            0x55
        }
    } else if a < 48 {
        let row = (a - 32) / 2;
        if row == 0 || row == 7 {
            0xFF
        } else {
            0x81
        }
    } else if a < 64 {
        1u8 << (((a - 48) / 2) as u8)
    } else if LOGO_VRAM_OFFSET <= a && a < LOGO_VRAM_OFFSET + LOGO_SIZE {
        rom[LOGO_ROM_OFFSET + (a - LOGO_VRAM_OFFSET)]
    } else if LOGO_MAP_OFFSET <= a && a < LOGO_MAP_OFFSET + LOGO_TILES {
        (0x10 + (a - LOGO_MAP_OFFSET)) as u8
    } else if BG_MAP_OFFSET <= a && a < BG_MAP_OFFSET + 0x400 {
        let m = a - BG_MAP_OFFSET;
        ((m / 32 + m % 32) % 4) as u8
    } else {
        0
    }
}

/// Video RAM as the bus starts it.
fn boot_vram_exec(rom: &Vec<u8>) -> (v: Vec<u8>)
    requires
        rom.len() >= MIN_ROM_SIZE,
    ensures
        v@ == boot_vram(rom@),
{
    let mut v: Vec<u8> = Vec::with_capacity(VRAM_SIZE);
    let mut a: usize = 0;
    while a < VRAM_SIZE
        invariant
            rom.len() >= MIN_ROM_SIZE,
            0 <= a <= VRAM_SIZE,
            v@ == boot_vram(rom@).take(a as int),
        decreases VRAM_SIZE - a,
    {
        let b = boot_vram_at(rom, a);
        v.push(b);
        a += 1;
        assert(v@ =~= boot_vram(rom@).take(a as int));
    }
    assert(boot_vram(rom@).take(VRAM_SIZE as int) =~= boot_vram(rom@));
    v
}

impl Memory {
    pub open spec fn wf(&self) -> bool {
        self@.wf()
    }

    /// A bus over a copy of `rom`, with blank RAM, the post-boot register
    /// values and the boot test pattern in video RAM. An image shorter than
    /// a cartridge header is refused.
    pub fn new(rom_data: &Vec<u8>) -> (r: Result<Memory, LoadError>)
        ensures
            rom_data.len() < MIN_ROM_SIZE <==> r is Err,
            r is Err ==> r == Err::<Memory, LoadError>(LoadError::RomTooSmall),
            r matches Ok(m) ==> {
                &&& m.wf()
                &&& m.rom@ == rom_data@
                &&& m.wram@ == Seq::new(WRAM_SIZE as nat, |i: int| 0u8)
                &&& m.io@ == Seq::new(IO_SIZE as nat, |i: int| 0u8)
                &&& m.hram@ == Seq::new(HRAM_SIZE as nat, |i: int| 0u8)
                &&& m.if_ == 0xE1
                &&& m.ie == 0x01
                &&& m.ppu@ == (PpuView { vram: boot_vram(rom_data@), ..Ppu::new_spec() })
            },
    {
        if rom_data.len() < MIN_ROM_SIZE {
            return Err(LoadError::RomTooSmall);
        }
        let mut ppu = Ppu::new();
        ppu.vram = boot_vram_exec(rom_data);
        let m = Memory {
            rom: rom_data.clone(),
            wram: [0u8; WRAM_SIZE],
            io: [0u8; IO_SIZE],
            hram: [0u8; HRAM_SIZE],
            ie: 0x01,
            if_: 0xE1,
            ppu,
        };
        assert(m.rom@ =~= rom_data@);
        assert(m.wram@ =~= Seq::new(WRAM_SIZE as nat, |i: int| 0u8));
        assert(m.io@ =~= Seq::new(IO_SIZE as nat, |i: int| 0u8));
        assert(m.hram@ =~= Seq::new(HRAM_SIZE as nat, |i: int| 0u8));
        Ok(m)
    }

    /// Advances the renderer by `cycles` and folds a frame-complete event
    /// into the VBlank bit of the interrupt-flag register.
    pub fn step_ppu(&mut self, cycles: u8)
        requires
            old(self).wf(),
        ensures
            final(self).wf(),
            final(self)@ == old(self)@.step_ppu_spec(cycles),
            final(self).ppu.stat & 3 == final(self).ppu.mode,
    {
        self.ppu.step(cycles as u32);
        if self.ppu.vblank_interrupt {
            self.if_ = self.if_ | 0x01;
            self.ppu.vblank_interrupt = false;
        }
    }

    /// Acknowledges the highest-priority interrupt that is requested and
    /// enabled by clearing its request bit; tells whether there was one.
    pub fn handle_interrupts(&mut self) -> (r: bool)
        requires
            old(self).wf(),
        ensures
            final(self).wf(),
            r == (first_pending(old(self).if_ & old(self).ie) != 0),
            final(self)@ == (MemoryView {
                if_: if r {
                    old(self).if_ & !first_pending(old(self).if_ & old(self).ie)
                } else {
                    old(self).if_
                },
                ..old(self)@
            }),
    {
        if self.if_ & self.ie != 0 {
            let active = self.if_ & self.ie;
            if active & 0x01 != 0 {
                self.if_ = self.if_ & !0x01;
                return true;
            }
            if active & 0x02 != 0 {
                self.if_ = self.if_ & !0x02;
                return true;
            }
            if active & 0x04 != 0 {
                self.if_ = self.if_ & !0x04;
                return true;
            }
            if active & 0x08 != 0 {
                self.if_ = self.if_ & !0x08;
                return true;
            }
            if active & 0x10 != 0 {
                self.if_ = self.if_ & !0x10;
                return true;
            }
        }
        proof {
            let a = self.if_ & self.ie;
            assert(a == 0 ==> (a & 0x01 == 0 && a & 0x02 == 0 && a & 0x04 == 0 && a & 0x08 == 0
                && a & 0x10 == 0)) by (bit_vector);
        }
        false
    }

    /// Tells whether `addr` is decoded by some region or register, so that a
    /// host can report the reads and writes that miss.
    pub fn is_mapped(&self, addr: u16) -> (r: bool)
        ensures
            r == is_mapped_spec(self.rom@.len(), addr),
    {
        (addr <= 0x7FFF && (addr as usize) < self.rom.len()) || (0x8000 <= addr && addr <= 0x9FFF)
            || (0xC000 <= addr && addr <= 0xDFFF) || (0xFE00 <= addr && addr <= 0xFE9F) || 0xFF00
            <= addr
    }

    /// The byte at `addr`; reads outside every region return 0.
    pub fn read(&self, addr: u16) -> (r: u8)
        requires
            self.wf(),
        ensures
            r == self@.read_spec(addr),
    {
        if addr <= 0x7FFF {
            if (addr as usize) < self.rom.len() {
                self.rom[addr as usize]
            } else {
                0
            }
        } else if addr <= 0x9FFF {
            self.ppu.vram[(addr - 0x8000) as usize]
        } else if 0xC000 <= addr && addr <= 0xDFFF {
            self.wram[(addr - 0xC000) as usize]
        } else if 0xFE00 <= addr && addr <= 0xFE9F {
            self.ppu.oam[(addr - 0xFE00) as usize]
        } else if 0xFF00 <= addr && addr <= 0xFF7F {
            match addr {
                ADDR_IF => self.if_,
                ADDR_LCDC => self.ppu.lcdc,
                ADDR_STAT => self.ppu.stat,
                ADDR_SCY => self.ppu.scy,
                ADDR_SCX => self.ppu.scx,
                ADDR_LY => self.ppu.line,
                ADDR_BGP => self.ppu.bgp,
                ADDR_OBP0 => self.ppu.obp0,
                ADDR_OBP1 => self.ppu.obp1,
                ADDR_WY => self.ppu.wy,
                ADDR_WX => self.ppu.wx,
                _ => self.io[(addr - 0xFF00) as usize],
            }
        } else if 0xFF80 <= addr && addr <= 0xFFFE {
            self.hram[(addr - 0xFF80) as usize]
        } else if addr == ADDR_IE {
            self.ie
        } else {
            0
        }
    }

    /// Stores `value` at `addr`; writes to ROM or outside every region are
    /// discarded.
    pub fn write(&mut self, addr: u16, value: u8)
        requires
            old(self).wf(),
        ensures
            final(self).wf(),
            final(self)@ == old(self)@.write_spec(addr, value),
    {
        if 0x8000 <= addr && addr <= 0x9FFF {
            self.ppu.vram.set((addr - 0x8000) as usize, value);
        } else if 0xC000 <= addr && addr <= 0xDFFF {
            self.wram[(addr - 0xC000) as usize] = value;
        } else if 0xFE00 <= addr && addr <= 0xFE9F {
            self.ppu.oam.set((addr - 0xFE00) as usize, value);
        } else if 0xFF00 <= addr && addr <= 0xFF7F {
            match addr {
                ADDR_IF => self.if_ = value,
                ADDR_LCDC => self.ppu.lcdc = value,
                ADDR_STAT => self.ppu.stat = value,
                ADDR_SCY => self.ppu.scy = value,
                ADDR_SCX => self.ppu.scx = value,
                ADDR_BGP => self.ppu.bgp = value,
                ADDR_OBP0 => self.ppu.obp0 = value,
                ADDR_OBP1 => self.ppu.obp1 = value,
                ADDR_WY => self.ppu.wy = value,
                ADDR_WX => self.ppu.wx = value,
                _ => self.io[(addr - 0xFF00) as usize] = value,
            }
        } else if 0xFF80 <= addr && addr <= 0xFFFE {
            self.hram[(addr - 0xFF80) as usize] = value;
        } else if addr == ADDR_IE {
            self.ie = value;
        }
    }
}

/// For every RAM address and every byte, a read after a write returns the
/// byte written.
pub proof fn lemma_write_then_read(m: MemoryView, addr: u16, value: u8)
    requires
        m.wf(),
        is_ram_addr(addr),
    ensures
        m.write_spec(addr, value).read_spec(addr) == value,
{
}

} // verus!
