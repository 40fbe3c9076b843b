use vstd::prelude::*;

use crate::cpu::{Cpu6510, word};
use crate::alu::{add8, add16};
use crate::memory::MemoryController;

verus! {

/// The addressing modes of the 6510, with the operand bytes that follow the opcode.
#[derive(Clone, Copy, PartialEq, Eq, Debug, Structural)]
pub enum Operand {
    Accumulator,
    Immediate(u8),
    ZeroPage(u8),
    ZeroPageX(u8),
    ZeroPageY(u8),
    Absolute(u16),
    AbsoluteX(u16),
    AbsoluteY(u16),
    Indirect(u16),
    IndirectX(u8),
    IndirectY(u8),
    Relative(i8),
}

/// The address that follows `address` within its 256-byte page (the 6502
/// does not carry into the high byte when it fetches an indirect pointer).
pub open spec fn next_in_page(address: u16) -> u16 {
    (address as int / 256 * 256 + (address as int % 256 + 1) % 256) as u16
}

/// The address that follows `address` in the zero page.
pub open spec fn next_in_zero_page(address: u8) -> u16 {
    add8(address, 1) as u16
}

/// Whether `a` and `b` lie in different 256-byte pages.
pub open spec fn page_crossed(a: u16, b: u16) -> bool {
    a & 0xff00 != b & 0xff00
}

impl Operand {
    /// Whether the mode names a memory location (or a branch target).
    pub open spec fn has_address(self) -> bool {
        !(self is Accumulator) && !(self is Immediate)
    }

    /// The effective address of the operand for `cpu` in its current state.
    pub open spec fn address_in<M: MemoryController>(self, cpu: Cpu6510<M>) -> u16 {
        self.address_with(cpu.regs(), cpu)
    }

    /// The effective address of the operand with the index registers and
    /// program counter of `r`, reading pointers from `cpu`.
    pub open spec fn address_with<M: MemoryController>(self, r: crate::cpu::Registers, cpu: Cpu6510<M>) -> u16 {
        match self {
            Operand::ZeroPage(a) => a as u16,
            Operand::ZeroPageX(a) => add8(a, r.x as int) as u16,
            Operand::ZeroPageY(a) => add8(a, r.y as int) as u16,
            Operand::Absolute(a) => a,
            Operand::AbsoluteX(a) => add16(a, r.x as int),
            Operand::AbsoluteY(a) => add16(a, r.y as int),
            Operand::Indirect(a) => word(cpu.load(a), cpu.load(next_in_page(a))),
            Operand::IndirectX(a) => {
                let pointer = add8(a, r.x as int);
                word(cpu.load(pointer as u16), cpu.load(next_in_zero_page(pointer)))
            },
            Operand::IndirectY(a) => {
                let base = word(cpu.load(a as u16), cpu.load(next_in_zero_page(a)));
                add16(base, r.y as int)
            },
            Operand::Relative(offset) => add16(r.pc, offset as int),
            _ => 0,
        }
    }

    /// The bus cycles that finding the effective address takes, with the
    /// index registers and program counter of `r` and pointers read from
    /// `cpu`: the index addition of the zero-page indexed modes, the page
    /// fix-up of the absolute indexed modes (always taken in a
    /// read-modify-write), the pointer reads of the indirect modes, and a
    /// branch's cycle with one more when it crosses a page.
    pub open spec fn ea_ticks_with<M: MemoryController>(self, r: crate::cpu::Registers, cpu: Cpu6510<M>, rmw: bool) -> nat {
        match self {
            Operand::ZeroPageX(_) => 1,
            Operand::ZeroPageY(_) => 1,
            Operand::AbsoluteX(a) => if rmw || page_crossed(a, self.address_with(r, cpu)) {
                1
            } else {
                0
            },
            Operand::AbsoluteY(a) => if rmw || page_crossed(a, self.address_with(r, cpu)) {
                1
            } else {
                0
            },
            Operand::Indirect(_) => 2,
            Operand::IndirectX(_) => 3,
            Operand::IndirectY(a) => {
                let base = word(cpu.load(a as u16), cpu.load(next_in_zero_page(a)));
                if rmw || page_crossed(base, self.address_with(r, cpu)) {
                    3
                } else {
                    2
                }
            },
            Operand::Relative(_) => if page_crossed(r.pc, self.address_with(r, cpu)) {
                2
            } else {
                1
            },
            _ => 0,
        }
    }

    /// The bus cycles that finding the effective address takes for `cpu`.
    pub open spec fn ea_ticks<M: MemoryController>(self, cpu: Cpu6510<M>, rmw: bool) -> nat {
        self.ea_ticks_with(cpu.regs(), cpu, rmw)
    }

    /// The bus cycles that reading the operand takes: none for the
    /// accumulator or an immediate byte, else the address and one read.
    pub open spec fn get_ticks<M: MemoryController>(self, cpu: Cpu6510<M>) -> nat {
        if self is Accumulator || self is Immediate {
            0
        } else {
            self.ea_ticks(cpu, false) + 1
        }
    }

    /// The bus cycles that storing into the operand takes: none for the
    /// accumulator, else the address and one write.
    pub open spec fn set_ticks<M: MemoryController>(self, cpu: Cpu6510<M>, rmw: bool) -> nat {
        if self is Accumulator {
            0
        } else {
            self.ea_ticks(cpu, rmw) + 1
        }
    }

    /// In a read-modify-write the cycles of a store depend on the program
    /// counter at most (for a branch offset), not on the rest of the CPU's state.
    pub proof fn lemma_rmw_set_ticks<M: MemoryController>(self, c1: Cpu6510<M>, c2: Cpu6510<M>)
        requires
            c1.regs().pc == c2.regs().pc,
        ensures
            self.set_ticks(c1, true) == self.set_ticks(c2, true),
    {
    }

    /// The value of the operand for `cpu` in its current state.
    pub open spec fn value_in<M: MemoryController>(self, cpu: Cpu6510<M>) -> u8 {
        match self {
            Operand::Accumulator => cpu.regs().a,
            Operand::Immediate(value) => value,
            _ => cpu.load(self.address_in(cpu)),
        }
    }

    /// `after` is `cpu` once `value` has been stored into the operand: the
    /// accumulator, or the byte at the effective address.
    pub open spec fn stored<M: MemoryController>(self, cpu: Cpu6510<M>, after: Cpu6510<M>, value: u8) -> bool {
        if self is Accumulator {
            &&& after.regs() == (crate::cpu::Registers { a: value, ..cpu.regs() })
            &&& cpu.same_devices(after)
        } else {
            &&& after.regs() == cpu.regs()
            &&& cpu.wrote(after, seq![(self.address_in(cpu), value)])
        }
    }

    /// The bus writes that storing `value` into the operand puts out.
    pub open spec fn store_writes<M: MemoryController>(self, cpu: Cpu6510<M>, value: u8) -> Seq<(u16, u8)> {
        if self is Accumulator {
            Seq::empty()
        } else {
            seq![(self.address_in(cpu), value)]
        }
    }

    /// The effective address. `rmw` says whether the access is part of a
    /// read-modify-write, which always takes the index-fixup cycle.
    pub fn ea<M: MemoryController, T: Fn()>(&self, cpu: &mut Cpu6510<M>, rmw: bool, tick_fn: &T) -> (address: u16)
        requires
            self.has_address(),
            call_requires(*tick_fn, ()),
        ensures
            address == self.address_in(*old(cpu)),
            old(cpu).idled(self.ea_ticks(*old(cpu), rmw), *final(cpu)),
    {
        match *self {
            Operand::ZeroPage(address) => address as u16,
            Operand::ZeroPageX(address) => {
                cpu.tick(tick_fn);
                address.wrapping_add(cpu.get_x()) as u16
            },
            Operand::ZeroPageY(address) => {
                cpu.tick(tick_fn);
                address.wrapping_add(cpu.get_y()) as u16
            },
            Operand::Absolute(address) => address,
            Operand::AbsoluteX(address) => {
                let ea = address.wrapping_add(cpu.get_x() as u16);
                if rmw || (address & 0xff00) != (ea & 0xff00) {
                    cpu.tick(tick_fn);
                }
                ea
            },
            Operand::AbsoluteY(address) => {
                let ea = address.wrapping_add(cpu.get_y() as u16);
                if rmw || (address & 0xff00) != (ea & 0xff00) {
                    cpu.tick(tick_fn);
                }
                ea
            },
            Operand::Indirect(address) => {
                assert(address & 0x00ff <= 0xff) by (bit_vector);
                let within: u16 = (address & 0x00ff) + 1;
                let next = (address & 0xff00) | (within & 0x00ff);
                assert((address & 0xff00) | (within & 0x00ff) == address as int / 256 * 256 + (
                address as int % 256 + 1) % 256) by (bit_vector)
                    requires
                        within == (address & 0x00ff) + 1,
                ;
                let low = cpu.read(address, tick_fn);
                let high = cpu.read(next, tick_fn);
                assert(((high as u16) << 8) | (low as u16) == high as int * 256 + low as int)
                    by (bit_vector);
                ((high as u16) << 8) | low as u16
            },
            Operand::IndirectX(address) => {
                cpu.tick(tick_fn);
                let pointer = address.wrapping_add(cpu.get_x());
                let low = cpu.read(pointer as u16, tick_fn);
                let high = cpu.read(pointer.wrapping_add(1) as u16, tick_fn);
                assert(((high as u16) << 8) | (low as u16) == high as int * 256 + low as int)
                    by (bit_vector);
                ((high as u16) << 8) | low as u16
            },
            Operand::IndirectY(address) => {
                let low = cpu.read(address as u16, tick_fn);
                let high = cpu.read(address.wrapping_add(1) as u16, tick_fn);
                assert(((high as u16) << 8) | (low as u16) == high as int * 256 + low as int)
                    by (bit_vector);
                let base = ((high as u16) << 8) | low as u16;
                let ea = base.wrapping_add(cpu.get_y() as u16);
                if rmw || (base & 0xff00) != (ea & 0xff00) {
                    cpu.tick(tick_fn);
                }
                ea
            },
            Operand::Relative(offset) => {
                let pc = cpu.get_pc();
                let ea = if offset < 0 {
                    let distance: u16 = (0 - (offset as i16)) as u16;
                    pc.wrapping_sub(distance)
                } else {
                    pc.wrapping_add(offset as u16)
                };
                cpu.tick(tick_fn);
                if (pc & 0xff00) != (ea & 0xff00) {
                    cpu.tick(tick_fn);
                }
                ea
            },
            _ => 0,
        }
    }

    /// Reads the operand's value.
    pub fn get<M: MemoryController, T: Fn()>(&self, cpu: &mut Cpu6510<M>, tick_fn: &T) -> (value: u8)
        requires
            call_requires(*tick_fn, ()),
        ensures
            value == self.value_in(*old(cpu)),
            old(cpu).idled(self.get_ticks(*old(cpu)), *final(cpu)),
    {
        match *self {
            Operand::Accumulator => cpu.get_a(),
            Operand::Immediate(value) => value,
            _ => {
                let address = self.ea(cpu, false, tick_fn);
                cpu.read(address, tick_fn)
            },
        }
    }

    /// Stores `value` into the operand.
    pub fn set<M: MemoryController, T: Fn()>(&self, cpu: &mut Cpu6510<M>, value: u8, rmw: bool, tick_fn: &T)
        requires
            !(*self is Immediate),
            call_requires(*tick_fn, ()),
        ensures
            self.stored(*old(cpu), *final(cpu), value),
            final(cpu).ticks() == old(cpu).ticks() + self.set_ticks(*old(cpu), rmw),
    {
        match *self {
            Operand::Accumulator => cpu.set_a(value),
            _ => {
                let address = self.ea(cpu, rmw, tick_fn);
                cpu.write(address, value, tick_fn);
            },
        }
    }
}

} // verus!
