//! The instruction engine: register file, opcode dispatch and the
//! compatibility policy that keeps a session making progress.
use vstd::prelude::*;

use crate::memory::{Memory, MemoryView, ADDR_BGP, ADDR_LCDC};
use crate::ppu::PpuView;

verus! {

/// Address execution starts from after the boot sequence.
pub const ENTRY_POINT: u16 = 0x0100;
/// The restart vector that the watchdog treats as a stall.
pub const STALL_VECTOR: u16 = 0x0038;
/// Total cycles past which the watchdog resets the session.
pub const STALL_CYCLE_LIMIT: u64 = 50_000;
/// Total cycles past which interrupts are enabled if still disabled.
pub const AUTO_IME_CYCLE_LIMIT: u64 = 100_000;
/// Cost reported by a watchdog reset.
pub const WATCHDOG_CYCLES: u8 = 20;
/// Display control the watchdog restores: display, background and sprites on.
pub const WATCHDOG_LCDC: u8 = 0x91;
/// Background palette the watchdog restores.
pub const WATCHDOG_BGP: u8 = 0xFC;
/// Zero flag: bit 7 of F.
pub const FLAG_Z: u8 = 0x80;

/// The register file: eight byte registers (F holds the flags in its top
/// nibble), program counter, stack pointer, the master interrupt-enable flag
/// and the count of cycles executed.
pub struct Cpu {
    pub pc: u16,
    pub sp: u16,
    pub a: u8,
    pub b: u8,
    pub c: u8,
    pub d: u8,
    pub e: u8,
    pub h: u8,
    pub l: u8,
    pub f: u8,
    pub total_cycles: u64,
    pub ime: bool,
}

/// `x` taken modulo 2^16, for `x` less than one wrap outside the range
/// (which every address computation here is).
pub open spec fn wrap16(x: int) -> u16 {
    if x < 0 {
        (x + 0x10000) as u16
    } else if x > 0xFFFF {
        (x - 0x10000) as u16
    } else {
        x as u16
    }
}

/// The byte `k` places after the program counter.
pub open spec fn operand(cpu: Cpu, m: MemoryView, k: int) -> u8 {
    m.read_spec(wrap16(cpu.pc + k))
}

/// The little-endian word that follows the opcode.
pub open spec fn operand16(cpu: Cpu, m: MemoryView) -> u16 {
    (operand(cpu, m, 2) * 256 + operand(cpu, m, 1)) as u16
}

/// A byte read as a two's-complement offset.
pub open spec fn signed_offset(b: u8) -> int {
    if b < 128 {
        b as int
    } else {
        b - 256
    }
}

/// Target of a relative jump: the offset counts from the end of the
/// two-byte instruction.
pub open spec fn relative_target(cpu: Cpu, m: MemoryView) -> u16 {
    wrap16(cpu.pc + 2 + signed_offset(operand(cpu, m, 1)))
}

/// The word on top of the stack: low byte at SP, high byte above it.
pub open spec fn stack_word(cpu: Cpu, m: MemoryView) -> u16 {
    (m.read_spec(wrap16(cpu.sp + 1)) * 256 + m.read_spec(cpu.sp)) as u16
}

pub open spec fn zero_flag(cpu: Cpu) -> bool {
    cpu.f & FLAG_Z != 0
}

/// The opcodes that `execute_spec` gives their own semantics; every other
/// opcode is skipped.
pub open spec fn is_implemented_spec(op: u8) -> bool {
    op == 0x00 || op == 0xCD || op == 0x61 || op == 0x21 || op == 0xC3 || op == 0x31 || op == 0x3E
        || op == 0xFE || op == 0x28 || op == 0x03 || op == 0xAF || op == 0x18 || op == 0xEA || op
        == 0xF3 || op == 0xE0 || op == 0xFF || op == 0xC0 || op == 0x01 || op == 0xF0 || op == 0x47
        || op == 0xCB || op == 0x20 || op == 0xFA || op == 0x7F || op == 0x78 || op == 0xC9
}

/// The escaped opcodes with semantics of their own (RES 0,A).
pub open spec fn is_implemented_escaped_spec(op: u8) -> bool {
    op == 0x87
}

/// Registers, bus and cost after the escape-prefixed instruction at PC.
pub open spec fn execute_cb_spec(cpu: Cpu, m: MemoryView) -> (Cpu, MemoryView, u8) {
    let next = wrap16(cpu.pc + 2);
    if is_implemented_escaped_spec(operand(cpu, m, 1)) {
        (Cpu { a: cpu.a & 0xFE, pc: next, ..cpu }, m, 8)
    } else {
        (Cpu { pc: next, ..cpu }, m, 8)
    }
}

/// Registers, bus and cost after the instruction whose opcode is `op`, read
/// at PC. Opcodes outside the implemented set skip one byte for 4 cycles.
pub open spec fn execute_spec(cpu: Cpu, m: MemoryView, op: u8) -> (Cpu, MemoryView, u8) {
    let pc1 = wrap16(cpu.pc + 1);
    let pc2 = wrap16(cpu.pc + 2);
    let pc3 = wrap16(cpu.pc + 3);
    if op == 0x00 {
        (Cpu { pc: pc1, ..cpu }, m, 4)
    } else if op == 0xCD {
        let sp1 = wrap16(cpu.sp - 1);
        let sp2 = wrap16(cpu.sp - 2);
        let m1 = m.write_spec(sp1, (pc3 / 256) as u8);
        let m2 = m1.write_spec(sp2, (pc3 % 256) as u8);
        (Cpu { pc: operand16(cpu, m), sp: sp2, ..cpu }, m2, 24)
    } else if op == 0x61 {
        (Cpu { h: cpu.c, pc: pc1, ..cpu }, m, 4)
    } else if op == 0x21 {
        (Cpu { l: operand(cpu, m, 1), h: operand(cpu, m, 2), pc: pc3, ..cpu }, m, 12)
    } else if op == 0xC3 {
        (Cpu { pc: operand16(cpu, m), ..cpu }, m, 16)
    } else if op == 0x31 {
        (Cpu { sp: operand16(cpu, m), pc: pc3, ..cpu }, m, 12)
    } else if op == 0x3E {
        (Cpu { a: operand(cpu, m, 1), pc: pc2, ..cpu }, m, 8)
    } else if op == 0xFE {
        let f = if cpu.a == operand(cpu, m, 1) {
            FLAG_Z
        } else {
            0
        };
        (Cpu { f, pc: pc2, ..cpu }, m, 8)
    } else if op == 0x28 {
        if zero_flag(cpu) {
            (Cpu { pc: relative_target(cpu, m), ..cpu }, m, 12)
        } else {
            (Cpu { pc: pc2, ..cpu }, m, 8)
        }
    } else if op == 0x03 {
        let bc = (cpu.b * 256 + cpu.c + 1) % 0x10000;
        (Cpu { b: (bc / 256) as u8, c: (bc % 256) as u8, pc: pc1, ..cpu }, m, 8)
    } else if op == 0xAF {
        (Cpu { a: 0, f: FLAG_Z, pc: pc1, ..cpu }, m, 4)
    } else if op == 0x18 {
        (Cpu { pc: relative_target(cpu, m), ..cpu }, m, 12)
    } else if op == 0xEA {
        (Cpu { pc: pc3, ..cpu }, m.write_spec(operand16(cpu, m), cpu.a), 16)
    } else if op == 0xF3 {
        (Cpu { ime: false, pc: pc1, ..cpu }, m, 4)
    } else if op == 0xE0 {
        (Cpu { pc: pc2, ..cpu }, m.write_spec((0xFF00 + operand(cpu, m, 1)) as u16, cpu.a), 12)
    } else if op == 0xFF {
        (Cpu { pc: STALL_VECTOR, ..cpu }, m, 16)
    } else if op == 0xC0 {
        if !zero_flag(cpu) {
            (Cpu { pc: stack_word(cpu, m), sp: wrap16(cpu.sp + 2), ..cpu }, m, 20)
        } else {
            (Cpu { pc: pc1, ..cpu }, m, 8)
        }
    } else if op == 0x01 {
        (Cpu { c: operand(cpu, m, 1), b: operand(cpu, m, 2), pc: pc3, ..cpu }, m, 12)
    } else if op == 0xF0 {
        (Cpu { a: m.read_spec((0xFF00 + operand(cpu, m, 1)) as u16), pc: pc2, ..cpu }, m, 12)
    } else if op == 0x47 {
        (Cpu { b: cpu.a, pc: pc1, ..cpu }, m, 4)
    } else if op == 0xCB {
        execute_cb_spec(cpu, m)
    } else if op == 0x20 {
        if !zero_flag(cpu) {
            (Cpu { pc: relative_target(cpu, m), ..cpu }, m, 12)
        } else {
            (Cpu { pc: pc2, ..cpu }, m, 8)
        }
    } else if op == 0xFA {
        (Cpu { a: m.read_spec(operand16(cpu, m)), pc: pc3, ..cpu }, m, 16)
    } else if op == 0x7F {
        (Cpu { pc: pc1, ..cpu }, m, 4)
    } else if op == 0x78 {
        (Cpu { a: cpu.b, pc: pc1, ..cpu }, m, 4)
    } else if op == 0xC9 {
        (Cpu { pc: stack_word(cpu, m), sp: wrap16(cpu.sp + 2), ..cpu }, m, 16)
    } else {
        (Cpu { pc: pc1, ..cpu }, m, 4)
    }
}

/// Tells whether `op` has semantics of its own, so that a host can report
/// the opcodes that are skipped.
pub fn is_implemented(op: u8) -> (r: bool)
    ensures
        r == is_implemented_spec(op),
        !r ==> forall|cpu: Cpu, m: MemoryView|
            #[trigger] execute_spec(cpu, m, op) == (Cpu { pc: wrap16(cpu.pc + 1), ..cpu }, m, 4u8),
{
    match op {
        0x00 | 0xCD | 0x61 | 0x21 | 0xC3 | 0x31 | 0x3E | 0xFE | 0x28 | 0x03 | 0xAF | 0x18 | 0xEA
        | 0xF3 | 0xE0 | 0xFF | 0xC0 | 0x01 | 0xF0 | 0x47 | 0xCB | 0x20 | 0xFA | 0x7F | 0x78
        | 0xC9 => true,
        _ => false,
    }
}

/// Tells whether the escaped opcode `op` has semantics of its own.
pub fn is_implemented_escaped(op: u8) -> (r: bool)
    ensures
        r == is_implemented_escaped_spec(op),
{
    op == 0x87
}

/// The watchdog fires when execution has reached the stall vector or the
/// cycle budget is spent.
pub open spec fn stalled(cpu: Cpu) -> bool {
    cpu.pc == STALL_VECTOR || cpu.total_cycles > STALL_CYCLE_LIMIT
}

/// Registers, bus and reported cost after one call of `step`.
pub open spec fn step_spec(cpu: Cpu, m: MemoryView) -> (Cpu, MemoryView, u8) {
    if stalled(cpu) {
        let m1 = MemoryView { if_: 0xFF, ie: 0xFF, ..m };
        (
            Cpu { pc: ENTRY_POINT, ime: true, ..cpu },
            m1.write_spec(ADDR_LCDC, WATCHDOG_LCDC).write_spec(ADDR_BGP, WATCHDOG_BGP),
            WATCHDOG_CYCLES,
        )
    } else {
        let synced = Cpu { ime: cpu.ime || m.if_ & m.ie != 0, ..cpu };
        let r = execute_spec(synced, m, m.read_spec(cpu.pc));
        let cycles = r.2;
        let after = Cpu {
            ime: r.0.ime || r.0.total_cycles > AUTO_IME_CYCLE_LIMIT,
            total_cycles: (r.0.total_cycles + cycles) as u64,
            ..r.0
        };
        (after, r.1.step_ppu_spec(cycles), cycles)
    }
}

impl Cpu {
    /// The documented post-boot register file.
    pub fn new() -> (cpu: Self)
        ensures
            cpu == (Cpu {
                pc: ENTRY_POINT,
                sp: 0xFFFE,
                a: 0x01,
                f: 0xB0,
                b: 0x00,
                c: 0x13,
                d: 0x00,
                e: 0xD8,
                h: 0x01,
                l: 0x4D,
                total_cycles: 0,
                ime: false,
            }),
    {
        Cpu {
            pc: ENTRY_POINT,
            sp: 0xFFFE,
            a: 0x01,
            f: 0xB0,
            b: 0x00,
            c: 0x13,
            d: 0x00,
            e: 0xD8,
            h: 0x01,
            l: 0x4D,
            total_cycles: 0,
            ime: false,
        }
    }

    /// The byte `k` places after PC.
    fn fetch_operand(&self, memory: &Memory, k: u16) -> (r: u8)
        requires
            memory.wf(),
            k <= 3,
        ensures
            r == operand(*self, memory@, k as int),
    {
        memory.read(self.pc.wrapping_add(k))
    }

    /// The little-endian word after the opcode.
    fn fetch_operand16(&self, memory: &Memory) -> (r: u16)
        requires
            memory.wf(),
        ensures
            r == operand16(*self, memory@),
    {
        let lo = self.fetch_operand(memory, 1) as u16;
        let hi = self.fetch_operand(memory, 2) as u16;
        hi * 256 + lo
    }

    fn relative_target(&self, memory: &Memory) -> (r: u16)
        requires
            memory.wf(),
        ensures
            r == relative_target(*self, memory@),
    {
        let offset = self.fetch_operand(memory, 1);
        let base = self.pc.wrapping_add(2);
        if offset < 128 {
            base.wrapping_add(offset as u16)
        } else {
            base.wrapping_sub(256 - offset as u16)
        }
    }

    fn stack_word(&self, memory: &Memory) -> (r: u16)
        requires
            memory.wf(),
        ensures
            r == stack_word(*self, memory@),
    {
        let lo = memory.read(self.sp) as u16;
        let hi = memory.read(self.sp.wrapping_add(1)) as u16;
        hi * 256 + lo
    }

    /// Executes the escape-prefixed instruction at PC; returns its cost.
    fn handle_cb_opcode(&mut self, memory: &mut Memory) -> (cycles: u8)
        requires
            old(memory).wf(),
        ensures
            final(memory).wf(),
            (*final(self), final(memory)@, cycles) == execute_cb_spec(*old(self), old(memory)@),
    {
        let cb_opcode = self.fetch_operand(memory, 1);
        if cb_opcode == 0x87 {
            // RES 0,A
            self.a = self.a & 0xFE;
        }
        self.pc = self.pc.wrapping_add(2);
        8
    }

    /// Executes the instruction with opcode `opcode` at PC; returns its cost.
    fn execute(&mut self, memory: &mut Memory, opcode: u8) -> (cycles: u8)
        requires
            old(memory).wf(),
        ensures
            final(memory).wf(),
            (*final(self), final(memory)@, cycles) == execute_spec(
                *old(self),
                old(memory)@,
                opcode,
            ),
    {
        match opcode {
            0x00 => {
                // NOP
                self.pc = self.pc.wrapping_add(1);
                4
            },
            0xCD => {
                // CALL nn
                let address = self.fetch_operand16(memory);
                let ret = self.pc.wrapping_add(3);
                self.sp = self.sp.wrapping_sub(1);
                memory.write(self.sp, (ret / 256) as u8);
                self.sp = self.sp.wrapping_sub(1);
                memory.write(self.sp, (ret % 256) as u8);
                self.pc = address;
                24
            },
            0x61 => {
                // LD H,C
                self.h = self.c;
                self.pc = self.pc.wrapping_add(1);
                4
            },
            0x21 => {
                // LD HL,nn
                self.l = self.fetch_operand(memory, 1);
                self.h = self.fetch_operand(memory, 2);
                self.pc = self.pc.wrapping_add(3);
                12
            },
            0xC3 => {
                // JP nn
                self.pc = self.fetch_operand16(memory);
                16
            },
            0x31 => {
                // LD SP,nn
                self.sp = self.fetch_operand16(memory);
                self.pc = self.pc.wrapping_add(3);
                12
            },
            0x3E => {
                // LD A,n
                self.a = self.fetch_operand(memory, 1);
                self.pc = self.pc.wrapping_add(2);
                8
            },
            0xFE => {
                // CP n
                let value = self.fetch_operand(memory, 1);
                self.f = if self.a == value {
                    FLAG_Z
                } else {
                    0
                };
                self.pc = self.pc.wrapping_add(2);
                8
            },
            0x28 => {
                // JR Z,n
                if self.f & FLAG_Z != 0 {
                    self.pc = self.relative_target(memory);
                    12
                } else {
                    self.pc = self.pc.wrapping_add(2);
                    8
                }
            },
            0x03 => {
                // INC BC
                let bc = (self.b as u16 * 256 + self.c as u16).wrapping_add(1);
                self.b = (bc / 256) as u8;
                self.c = (bc % 256) as u8;
                self.pc = self.pc.wrapping_add(1);
                8
            },
            0xAF => {
                // XOR A
                self.a = 0;
                self.f = FLAG_Z;
                self.pc = self.pc.wrapping_add(1);
                4
            },
            0x18 => {
                // JR n
                self.pc = self.relative_target(memory);
                12
            },
            0xEA => {
                // LD (nn),A
                let address = self.fetch_operand16(memory);
                memory.write(address, self.a);
                self.pc = self.pc.wrapping_add(3);
                16
            },
            0xF3 => {
                // DI
                self.ime = false;
                self.pc = self.pc.wrapping_add(1);
                4
            },
            0xE0 => {
                // LDH (n),A
                let offset = self.fetch_operand(memory, 1);
                memory.write(0xFF00 + offset as u16, self.a);
                self.pc = self.pc.wrapping_add(2);
                12
            },
            0xFF => {
                // RST 38h
                self.pc = STALL_VECTOR;
                16
            },
            0xC0 => {
                // RET NZ
                if self.f & FLAG_Z == 0 {
                    self.pc = self.stack_word(memory);
                    self.sp = self.sp.wrapping_add(2);
                    20
                } else {
                    self.pc = self.pc.wrapping_add(1);
                    8
                }
            },
            0x01 => {
                // LD BC,nn
                self.c = self.fetch_operand(memory, 1);
                self.b = self.fetch_operand(memory, 2);
                self.pc = self.pc.wrapping_add(3);
                12
            },
            0xF0 => {
                // LDH A,(n)
                let offset = self.fetch_operand(memory, 1);
                self.a = memory.read(0xFF00 + offset as u16);
                self.pc = self.pc.wrapping_add(2);
                12
            },
            0x47 => {
                // LD B,A
                self.b = self.a;
                self.pc = self.pc.wrapping_add(1);
                4
            },
            0xCB => self.handle_cb_opcode(memory),
            0x20 => {
                // JR NZ,n
                if self.f & FLAG_Z == 0 {
                    self.pc = self.relative_target(memory);
                    12
                } else {
                    self.pc = self.pc.wrapping_add(2);
                    8
                }
            },
            0xFA => {
                // LD A,(nn)
                let address = self.fetch_operand16(memory);
                self.a = memory.read(address);
                self.pc = self.pc.wrapping_add(3);
                16
            },
            0x7F => {
                // LD A,A
                self.pc = self.pc.wrapping_add(1);
                4
            },
            0x78 => {
                // LD A,B
                self.a = self.b;
                self.pc = self.pc.wrapping_add(1);
                4
            },
            0xC9 => {
                // RET
                self.pc = self.stack_word(memory);
                self.sp = self.sp.wrapping_add(2);
                16
            },
            _ => {
                self.pc = self.pc.wrapping_add(1);
                4
            },
        }
    }

    /// Runs one instruction cycle: the watchdog, interrupt-enable
    /// synchronisation, fetch and execute, the auto-enable policy, cycle
    /// accounting, and finally the renderer advanced by the cost, which is
    /// returned.
    pub fn step(&mut self, memory: &mut Memory) -> (cycles: u8)
        requires
            old(memory).wf(),
        ensures
            final(memory).wf(),
            (*final(self), final(memory)@, cycles) == step_spec(*old(self), old(memory)@),
    {
        if self.pc == STALL_VECTOR || self.total_cycles > STALL_CYCLE_LIMIT {
            self.pc = ENTRY_POINT;
            self.ime = true;
            memory.if_ = 0xFF;
            memory.ie = 0xFF;
            memory.write(ADDR_LCDC, WATCHDOG_LCDC);
            memory.write(ADDR_BGP, WATCHDOG_BGP);
            return WATCHDOG_CYCLES;
        }
        if memory.if_ & memory.ie != 0 {
            self.ime = true;
        }
        let opcode = memory.read(self.pc);
        let cycles = self.execute(memory, opcode);
        if self.total_cycles > AUTO_IME_CYCLE_LIMIT && !self.ime {
            self.ime = true;
        }
        self.total_cycles = self.total_cycles + cycles as u64;
        memory.step_ppu(cycles);
        cycles
    }

    /// Tells whether the next `step` is a watchdog reset rather than an
    /// instruction.
    pub fn is_stalled(&self) -> (r: bool)
        ensures
            r == stalled(*self),
    {
        self.pc == STALL_VECTOR || self.total_cycles > STALL_CYCLE_LIMIT
    }

    /// The `count` bytes starting at PC, wrapping at the top of the address
    /// space.
    pub fn peek_next_opcodes(&self, memory: &Memory, count: usize) -> (r: Vec<u8>)
        requires
            memory.wf(),
        ensures
            r@.len() == count,
            forall|i: int|
                0 <= i < count ==> #[trigger] r@[i] == memory@.read_spec(
                    ((self.pc + i) % 0x10000) as u16,
                ),
    {
        let mut opcodes: Vec<u8> = Vec::with_capacity(count);
        let mut addr = self.pc;
        let mut i: usize = 0;
        while i < count
            invariant
                memory.wf(),
                0 <= i <= count,
                addr == ((self.pc + i) % 0x10000) as u16,
                opcodes@.len() == i,
                forall|j: int|
                    0 <= j < i ==> #[trigger] opcodes@[j] == memory@.read_spec(
                        ((self.pc + j) % 0x10000) as u16,
                    ),
            decreases count - i,
        {
            opcodes.push(memory.read(addr));
            addr = addr.wrapping_add(1);
            i += 1;
        }
        opcodes
    }
}

} // verus!
