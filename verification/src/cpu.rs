use vstd::prelude::*;

use crate::flags::{Flag, flag_set, with_flag, with_nz, CARRY, ZERO, INT_DISABLE, DECIMAL, BREAK, RESERVED, OVERFLOW, NEGATIVE};
use crate::io::{IoPort, IrqLine};
use crate::memory::{MemoryController, mem_after, lemma_mem_after_concat};
use vstd::string::StringExecFns;
use crate::alu::{add8, add16, hi, lo, bcd_add, bcd_sub, lemma_word, lemma_nibbles, lemma_byte_bits, lemma_bit8_set, lemma_adc_exec, lemma_sbc_exec, lemma_compare_exec, lemma_shifts_exec};
use crate::instruction::{Instruction, base_cycles};
use crate::operand::Operand;

verus! {

/// The interrupt sources of the 6510.
#[derive(Clone, Copy, PartialEq, Eq, Debug, Structural)]
pub enum Interrupt {
    Break,
    Irq,
    Nmi,
    Reset,
}

impl Interrupt {
    /// The address of the vector that holds the handler's entry point.
    pub open spec fn spec_vector(self) -> u16 {
        match self {
            Interrupt::Break => 0xfffe,
            Interrupt::Irq => 0xfffe,
            Interrupt::Nmi => 0xfffa,
            Interrupt::Reset => 0xfffc,
        }
    }

    pub fn vector(&self) -> (v: u16)
        ensures
            v == self.spec_vector(),
    {
        match *self {
            Interrupt::Break => 0xfffe,
            Interrupt::Irq => 0xfffe,
            Interrupt::Nmi => 0xfffa,
            Interrupt::Reset => 0xfffc,
        }
    }
}

/// The programmer-visible registers of the 6510.
#[derive(Clone, Copy, PartialEq, Eq, Debug, Structural)]
pub struct Registers {
    pub a: u8,
    pub x: u8,
    pub y: u8,
    pub p: u8,
    pub pc: u16,
    pub sp: u8,
}

/// The little-endian 16-bit word made of the bytes `lo` and `hi`.
pub open spec fn word(lo: u8, hi: u8) -> u16 {
    (hi as int * 256 + lo as int) as u16
}

/// `(direction, value)` of the I/O port once the writes `ws` have reached it:
/// a write to 0x0000 sets the direction, a write to 0x0001 the value.
pub open spec fn port_after(port: (u8, u8), ws: Seq<(u16, u8)>) -> (u8, u8)
    decreases ws.len(),
{
    if ws.len() == 0 {
        port
    } else {
        let before = port_after(port, ws.drop_last());
        let (address, value) = ws.last();
        if address == 0 {
            (value, before.1)
        } else if address == 1 {
            (before.0, value)
        } else {
            before
        }
    }
}

proof fn lemma_port_after_concat(port: (u8, u8), w1: Seq<(u16, u8)>, w2: Seq<(u16, u8)>)
    ensures
        port_after(port_after(port, w1), w2) == port_after(port, w1 + w2),
    decreases w2.len(),
{
    if w2.len() == 0 {
        assert(w1 + w2 =~= w1);
    } else {
        assert((w1 + w2).drop_last() =~= w1 + w2.drop_last());
        lemma_port_after_concat(port, w1, w2.drop_last());
    }
}

/// The address of stack slot `sp` (the stack lives in page 1).
pub open spec fn stack_address(sp: u8) -> u16 {
    (0x100 + sp as int) as u16
}

/// What an interrupt sequence pushes, in order: the return address (high
/// byte first) and the status. IRQ and NMI push the program counter and the
/// status with B clear; BRK pushes the program counter plus one and the
/// status with B and the reserved bit set; RESET pushes nothing.
pub open spec fn interrupt_writes(r: Registers, interrupt: Interrupt) -> Seq<(u16, u8)> {
    match interrupt {
        Interrupt::Reset => Seq::empty(),
        Interrupt::Break => {
            let ret = add16(r.pc, 1);
            seq![
                (stack_address(r.sp), hi(ret)),
                (stack_address(add8(r.sp, -1)), lo(ret)),
                (stack_address(add8(r.sp, -2)), with_flag(with_flag(r.p, BREAK, true), RESERVED, true)),
            ]
        },
        _ => seq![
            (stack_address(r.sp), hi(r.pc)),
            (stack_address(add8(r.sp, -1)), lo(r.pc)),
            (stack_address(add8(r.sp, -2)), with_flag(r.p, BREAK, false)),
        ],
    }
}

/// The registers after an interrupt sequence that reads `target` from the
/// vector: RESET only loads the program counter; the others also set I and
/// leave three bytes on the stack.
pub open spec fn interrupt_regs(r: Registers, interrupt: Interrupt, target: u16) -> Registers {
    match interrupt {
        Interrupt::Reset => Registers { pc: target, ..r },
        _ => Registers { p: with_flag(r.p, INT_DISABLE, true), sp: add8(r.sp, -3), pc: target, ..r },
    }
}

/// The bus cycles the sequence of `interrupt` takes once the CPU is at it:
/// three pushes (none for reset), the two reads of the vector and one more.
pub open spec fn interrupt_ticks(interrupt: Interrupt) -> nat {
    if interrupt is Reset {
        3
    } else {
        6
    }
}

/// Whether every write of `ws` goes to an address that is RAM in `mem`.
pub open spec fn writes_to_ram<M: MemoryController>(mem: M, ws: Seq<(u16, u8)>) -> bool {
    forall|i: int| 0 <= i < ws.len() ==> mem.is_ram(#[trigger] ws[i].0)
}

/// When every write of `ws` goes to RAM, `after` is `before` once the writes
/// have been stored, in order, with the same addresses RAM.
#[verifier::opaque]
pub open spec fn stored_writes<M: MemoryController>(before: M, after: M, ws: Seq<(u16, u8)>) -> bool {
    writes_to_ram(before, ws) ==> {
        &&& forall|a: u16| #[trigger] after.is_ram(a) == before.is_ram(a)
        &&& forall|a: u16| #[trigger] after.peek(a) == mem_after(before, ws, a)
    }
}

/// The lower-case hexadecimal digit for `d` (0 to 15).
pub open spec fn hex_digit(d: int) -> char {
    seq!['0', '1', '2', '3', '4', '5', '6', '7', '8', '9', 'a', 'b', 'c', 'd', 'e', 'f'][d]
}

/// A byte as two lower-case hexadecimal digits.
pub open spec fn hex_byte(v: u8) -> Seq<char> {
    seq![hex_digit(v as int / 16), hex_digit(v as int % 16)]
}

/// `upper` when `set`, else `lower`.
pub open spec fn flag_letter(set: bool, upper: char, lower: char) -> char {
    if set {
        upper
    } else {
        lower
    }
}

/// The one-line register dump: A, X, Y and SP in hexadecimal, then the
/// flags N V B D I Z C, each upper case when set. The B column shows the
/// decimal flag, as D does.
pub open spec fn status_text(r: Registers) -> Seq<char> {
    hex_byte(r.a) + seq![' '] + hex_byte(r.x) + seq![' '] + hex_byte(r.y) + seq![' '] + hex_byte(r.sp)
        + seq![
        ' ',
        flag_letter(flag_set(r.p, NEGATIVE), 'N', 'n'),
        flag_letter(flag_set(r.p, OVERFLOW), 'V', 'v'),
        flag_letter(flag_set(r.p, DECIMAL), 'B', 'b'),
        flag_letter(flag_set(r.p, DECIMAL), 'D', 'd'),
        flag_letter(flag_set(r.p, INT_DISABLE), 'I', 'i'),
        flag_letter(flag_set(r.p, ZERO), 'Z', 'z'),
        flag_letter(flag_set(r.p, CARRY), 'C', 'c'),
    ]
}

fn hex_digit_str(d: u8) -> (s: &'static str)
    requires
        d < 16,
    ensures
        s@ == seq![hex_digit(d as int)],
{
    match d {
        0 => { proof { reveal_strlit("0"); } "0" },
        1 => { proof { reveal_strlit("1"); } "1" },
        2 => { proof { reveal_strlit("2"); } "2" },
        3 => { proof { reveal_strlit("3"); } "3" },
        4 => { proof { reveal_strlit("4"); } "4" },
        5 => { proof { reveal_strlit("5"); } "5" },
        6 => { proof { reveal_strlit("6"); } "6" },
        7 => { proof { reveal_strlit("7"); } "7" },
        8 => { proof { reveal_strlit("8"); } "8" },
        9 => { proof { reveal_strlit("9"); } "9" },
        10 => { proof { reveal_strlit("a"); } "a" },
        11 => { proof { reveal_strlit("b"); } "b" },
        12 => { proof { reveal_strlit("c"); } "c" },
        13 => { proof { reveal_strlit("d"); } "d" },
        14 => { proof { reveal_strlit("e"); } "e" },
        _ => { proof { reveal_strlit("f"); } "f" },
    }
}

fn append_hex_byte(text: &mut String, v: u8)
    ensures
        final(text)@ == old(text)@ + hex_byte(v),
{
    text.append(hex_digit_str(v / 16));
    text.append(hex_digit_str(v % 16));
    assert(final(text)@ =~= old(text)@ + hex_byte(v));
}

fn append_flag_letter(text: &mut String, set: bool, upper: &str, lower: &str)
    ensures
        final(text)@ == old(text)@ + (if set { upper@ } else { lower@ }),
{
    if set {
        text.append(upper);
    } else {
        text.append(lower);
    }
}

/// Which helper of `execute` runs an instruction.
spec fn group(instr: Instruction) -> int {
    match instr {
        Instruction::LDA(..) | Instruction::LDX(..) | Instruction::LDY(..) | Instruction::PHA(..)
        | Instruction::PHP(..) | Instruction::PLA(..) | Instruction::PLP(..) | Instruction::STA(..)
        | Instruction::STX(..) | Instruction::STY(..) | Instruction::TAX(..) | Instruction::TAY(..)
        | Instruction::TSX(..) | Instruction::TXA(..) | Instruction::TXS(..) | Instruction::TYA(..) => 0,
        Instruction::ADC(..) | Instruction::SBC(..) | Instruction::CMP(..) | Instruction::CPX(..)
        | Instruction::CPY(..) | Instruction::DEC(..) | Instruction::DEX(..) | Instruction::DEY(..)
        | Instruction::INC(..) | Instruction::INX(..) | Instruction::INY(..) => 1,
        Instruction::AND(..) | Instruction::EOR(..) | Instruction::ORA(..) | Instruction::ASL(..)
        | Instruction::LSR(..) | Instruction::ROL(..) | Instruction::ROR(..) => 2,
        Instruction::BCC(..) | Instruction::BCS(..) | Instruction::BEQ(..) | Instruction::BMI(..)
        | Instruction::BNE(..) | Instruction::BPL(..) | Instruction::BVC(..) | Instruction::BVS(..)
        | Instruction::JMP(..) | Instruction::JSR(..) | Instruction::RTS(..) => 3,
        _ => 4,
    }
}

/// The 6510 CPU: registers, the on-chip I/O port, the IRQ and NMI lines, and
/// the memory controller it reads and writes through.
pub struct Cpu6510<M> {
    mem: M,
    a: u8,
    x: u8,
    y: u8,
    p: u8,
    pc: u16,
    sp: u8,
    io_port: IoPort,
    irq: IrqLine,
    nmi: IrqLine,
    /// Every write the CPU has put on the bus, oldest first.
    bus: Ghost<Seq<(u16, u8)>>,
    /// The bus cycles counted so far: one for each call of a tick function
    /// that a caller handed in.
    clock: Ghost<nat>,
}

impl<M: MemoryController> Cpu6510<M> {
    pub closed spec fn regs(&self) -> Registers {
        Registers { a: self.a, x: self.x, y: self.y, p: self.p, pc: self.pc, sp: self.sp }
    }

    pub closed spec fn memory(&self) -> M {
        self.mem
    }

    pub closed spec fn port(&self) -> IoPort {
        self.io_port
    }

    pub closed spec fn irq_line(&self) -> IrqLine {
        self.irq
    }

    pub closed spec fn nmi_line(&self) -> IrqLine {
        self.nmi
    }

    /// Every write the CPU has put on the bus, oldest first.
    pub closed spec fn bus_writes(&self) -> Seq<(u16, u8)> {
        self.bus@
    }

    /// The bus cycles counted so far: one for each call of the tick function
    /// that a caller handed in.
    pub closed spec fn ticks(&self) -> nat {
        self.clock@
    }

    /// `after` is this CPU once `n` bus cycles have passed that changed
    /// nothing else: registers, devices and the bus log are as they were.
    pub open spec fn idled(&self, n: nat, after: Self) -> bool {
        &&& after.regs() == self.regs()
        &&& self.same_devices(after)
        &&& after.ticks() == self.ticks() + n
    }

    /// What a read of `address` by the CPU returns: the port's direction and
    /// value registers at 0x0000 and 0x0001, the memory controller elsewhere.
    pub open spec fn load(&self, address: u16) -> u8 {
        if address == 0 {
            self.port()@.0
        } else if address == 1 {
            self.port()@.1
        } else {
            self.memory().peek(address)
        }
    }

    /// The little-endian word at `address` and `address + 1`.
    pub open spec fn load_word(&self, address: u16) -> u16 {
        word(self.load(address), self.load((address + 1) as u16))
    }

    /// `after` is this CPU once the writes `ws` have gone out on the bus, in
    /// order: the bus log, the I/O port and the memory controller reflect them.
    /// Registers and interrupt lines are not compared.
    pub open spec fn wrote_bus(&self, after: Self, ws: Seq<(u16, u8)>) -> bool {
        if ws.len() == 0 {
            &&& after.bus_writes() == self.bus_writes()
            &&& after.port() == self.port()
            &&& after.memory() == self.memory()
        } else {
            &&& after.bus_writes() == self.bus_writes() + ws
            &&& after.port()@ == port_after(self.port()@, ws)
            &&& stored_writes(self.memory(), after.memory(), ws)
        }
    }

    /// `after` is this CPU once the writes `ws` have gone out on the bus, with
    /// the interrupt lines untouched; the registers are not compared.
    pub open spec fn wrote(&self, after: Self, ws: Seq<(u16, u8)>) -> bool {
        &&& self.wrote_bus(after, ws)
        &&& after.irq_line() == self.irq_line()
        &&& after.nmi_line() == self.nmi_line()
    }

    /// `after` differs from this CPU in its registers at most.
    pub open spec fn same_devices(&self, after: Self) -> bool {
        self.wrote(after, Seq::empty())
    }

    /// `after` is this CPU once `value` has been pushed: the value is written
    /// to the current stack slot and the stack pointer moves down by one.
    pub open spec fn pushed(&self, value: u8, after: Self) -> bool {
        &&& after.regs() == (Registers { sp: add8(self.regs().sp, -1), ..self.regs() })
        &&& self.wrote(after, seq![(stack_address(self.regs().sp), value)])
        &&& after.ticks() == self.ticks() + 1
    }

    /// `after` is this CPU once `value` has been popped: the stack pointer
    /// moves up by one and `value` is what the new stack slot holds.
    pub open spec fn popped(&self, value: u8, after: Self) -> bool {
        &&& value == self.load(stack_address(add8(self.regs().sp, 1)))
        &&& after.regs() == (Registers { sp: add8(self.regs().sp, 1), ..self.regs() })
        &&& self.same_devices(after)
        &&& after.ticks() == self.ticks() + 1
    }

    /// `after` is this CPU once it has executed `instr`: the registers are
    /// those the instruction computes, the bus has seen its writes, and the
    /// instruction's bus cycles have passed.
    pub open spec fn executes(&self, instr: Instruction, after: Self) -> bool {
        &&& after.regs() == instr.next_regs(*self, after)
        &&& self.wrote(after, instr.bus_writes_in(*self))
        &&& after.ticks() == self.ticks() + instr.ticks_in(*self, after)
    }

    /// `after` is this CPU once it has run the sequence of `interrupt`.
    pub open spec fn interrupted(&self, interrupt: Interrupt, after: Self) -> bool {
        &&& after.regs() == interrupt_regs(self.regs(), interrupt, after.load_word(interrupt.spec_vector()))
        &&& self.wrote_bus(after, interrupt_writes(self.regs(), interrupt))
        &&& after.irq_line() == self.irq_line()
        &&& interrupt == Interrupt::Nmi ==> after.nmi_line()@ == 0
        &&& interrupt != Interrupt::Nmi ==> after.nmi_line() == self.nmi_line()
        &&& after.ticks() == self.ticks() + interrupt_ticks(interrupt)
    }

    /// The interrupt that the next step services before fetching: a held NMI
    /// line first, then a held IRQ line unless I is set.
    pub open spec fn pending_interrupt(&self) -> Option<Interrupt> {
        if self.nmi_line()@ != 0 {
            Some(Interrupt::Nmi)
        } else if self.irq_line()@ != 0 && !flag_set(self.regs().p, INT_DISABLE) {
            Some(Interrupt::Irq)
        } else {
            None
        }
    }

    /// `after` is this CPU once its pending interrupt (if any) has been serviced.
    pub open spec fn serviced(&self, after: Self) -> bool {
        match self.pending_interrupt() {
            Some(interrupt) => self.interrupted(interrupt, after),
            None => after == *self,
        }
    }

    /// `after` is this CPU once it has fetched the opcode at the program
    /// counter and the operand bytes that follow, and `instr` is the
    /// instruction they encode.
    pub open spec fn fetched(&self, instr: Instruction, after: Self) -> bool {
        let pc = self.regs().pc;
        let opcode = self.load(pc);
        &&& instr.encoding() == Some(opcode)
        &&& instr.cycles() == base_cycles(opcode)
        &&& instr.operand_fetched(*self, add16(pc, 1))
        &&& after.regs() == (Registers { pc: add16(pc, 1 + instr.operand_len()), ..self.regs() })
        &&& self.same_devices(after)
        &&& after.ticks() == self.ticks() + 1 + instr.operand_len()
    }

    /// `after` is this CPU once it has fetched an opcode it does not run: one
    /// that encodes no documented instruction, or BRK at 0xfffe, whose return
    /// address would lie past the end of memory.
    pub open spec fn jammed(&self, after: Self) -> bool {
        let pc = self.regs().pc;
        let opcode = self.load(pc);
        &&& (forall|i: Instruction| #[trigger] i.encoding() != Some(opcode)) || (opcode == 0x00 && pc
            == 0xfffe)
        &&& after.regs() == (Registers { pc: add16(pc, 1), ..self.regs() })
        &&& self.same_devices(after)
        &&& after.ticks() == self.ticks() + 1
    }

    /// `after` is this CPU once it has been reset: registers cleared with the
    /// program counter loaded from the reset vector, the I/O port configured
    /// by two bus writes (direction 0x2f, value 0x1f), both interrupt lines
    /// released, and no cycle of a caller's tick function counted.
    pub open spec fn was_reset(&self, after: Self) -> bool {
        &&& after.regs() == (Registers { a: 0, x: 0, y: 0, p: 0, pc: after.load_word(0xfffc), sp: 0 })
        &&& self.wrote_bus(after, seq![(0x0000u16, 0x2fu8), (0x0001u16, 0x1fu8)])
        &&& after.irq_line()@ == 0
        &&& after.nmi_line()@ == 0
        &&& after.ticks() == self.ticks()
    }

    pub proof fn lemma_wrote_bus_then(s0: Self, s1: Self, s2: Self, w1: Seq<(u16, u8)>, w2: Seq<(u16, u8)>)
        requires
            s0.wrote_bus(s1, w1),
            s1.wrote_bus(s2, w2),
        ensures
            s0.wrote_bus(s2, w1 + w2),
    {
        reveal(stored_writes);
        if w1.len() == 0 {
            assert(w1 + w2 =~= w2);
        } else if w2.len() == 0 {
            assert(w1 + w2 =~= w1);
        } else {
            assert(s2.bus_writes() =~= s0.bus_writes() + (w1 + w2));
            lemma_port_after_concat(s0.port()@, w1, w2);
            if writes_to_ram(s0.memory(), w1 + w2) {
                assert(writes_to_ram(s0.memory(), w1)) by {
                    assert forall|i: int| 0 <= i < w1.len() implies s0.memory().is_ram(#[trigger] w1[i].0) by {
                        assert((w1 + w2)[i] == w1[i]);
                    }
                }
                assert(writes_to_ram(s1.memory(), w2)) by {
                    assert forall|i: int| 0 <= i < w2.len() implies s1.memory().is_ram(#[trigger] w2[i].0) by {
                        assert((w1 + w2)[w1.len() + i] == w2[i]);
                    }
                }
                assert forall|a: u16| #[trigger] s2.memory().peek(a) == mem_after(s0.memory(), w1 + w2, a) by {
                    lemma_mem_after_concat(s0.memory(), s1.memory(), w1, w2, a);
                }
            }
        }
    }

    /// Three pushes in a row write their bytes to three stack slots, in order.
    proof fn lemma_three_pushes(s0: Self, s1: Self, s2: Self, s3: Self, v1: u8, v2: u8, v3: u8)
        requires
            s0.wrote(s1, seq![(stack_address(s0.sp), v1)]),
            s1.wrote(s2, seq![(stack_address(s1.sp), v2)]),
            s2.wrote(s3, seq![(stack_address(s2.sp), v3)]),
        ensures
            s0.wrote(s3, seq![(stack_address(s0.sp), v1), (stack_address(s1.sp), v2), (stack_address(s2.sp), v3)]),
    {
        let w1 = seq![(stack_address(s0.sp), v1)];
        let w2 = seq![(stack_address(s1.sp), v2)];
        let w3 = seq![(stack_address(s2.sp), v3)];
        Self::lemma_wrote_then(s0, s1, s2, w1, w2);
        Self::lemma_wrote_then(s0, s2, s3, w1 + w2, w3);
        assert(w1 + w2 + w3 =~= seq![(stack_address(s0.sp), v1), (stack_address(s1.sp), v2), (stack_address(s2.sp), v3)]);
    }

    /// Writes that go out one run after another compose into their concatenation.
    pub proof fn lemma_wrote_then(s0: Self, s1: Self, s2: Self, w1: Seq<(u16, u8)>, w2: Seq<(u16, u8)>)
        requires
            s0.wrote(s1, w1),
            s1.wrote(s2, w2),
        ensures
            s0.wrote(s2, w1 + w2),
    {
        Self::lemma_wrote_bus_then(s0, s1, s2, w1, w2);
    }

    pub fn new(io_port: IoPort, irq: IrqLine, nmi: IrqLine, mem: M) -> (cpu: Cpu6510<M>)
        ensures
            cpu.regs() == (Registers { a: 0, x: 0, y: 0, p: 0, pc: 0, sp: 0 }),
            cpu.memory() == mem,
            cpu.port() == io_port,
            cpu.irq_line() == irq,
            cpu.nmi_line() == nmi,
            cpu.bus_writes() == Seq::<(u16, u8)>::empty(),
            cpu.ticks() == 0,
    {
        Cpu6510 {
            mem,
            a: 0,
            x: 0,
            y: 0,
            p: 0,
            pc: 0,
            sp: 0,
            io_port,
            irq,
            nmi,
            bus: Ghost(Seq::empty()),
            clock: Ghost(0),
        }
    }

    /// Source `source` (0 to 7) holds (`low`) or releases the IRQ line.
    pub fn set_irq(&mut self, source: u8, low: bool)
        requires
            source < 8,
        ensures
            final(self).regs() == old(self).regs(),
            old(self).wrote_bus(*final(self), Seq::empty()),
            final(self).ticks() == old(self).ticks(),
            final(self).nmi_line() == old(self).nmi_line(),
            final(self).irq_line()@ == (if low {
                old(self).irq_line()@ | (1u8 << source)
            } else {
                old(self).irq_line()@ & !(1u8 << source)
            }),
    {
        self.irq.set_low(source, low);
    }

    /// Source `source` (0 to 7) holds (`low`) or releases the NMI line.
    pub fn set_nmi(&mut self, source: u8, low: bool)
        requires
            source < 8,
        ensures
            final(self).regs() == old(self).regs(),
            old(self).wrote_bus(*final(self), Seq::empty()),
            final(self).ticks() == old(self).ticks(),
            final(self).irq_line() == old(self).irq_line(),
            final(self).nmi_line()@ == (if low {
                old(self).nmi_line()@ | (1u8 << source)
            } else {
                old(self).nmi_line()@ & !(1u8 << source)
            }),
    {
        self.nmi.set_low(source, low);
    }

    pub fn get_a(&self) -> (a: u8)
        ensures
            a == self.regs().a,
    {
        self.a
    }

    pub fn get_x(&self) -> (x: u8)
        ensures
            x == self.regs().x,
    {
        self.x
    }

    pub fn get_y(&self) -> (y: u8)
        ensures
            y == self.regs().y,
    {
        self.y
    }

    pub fn get_pc(&self) -> (pc: u16)
        ensures
            pc == self.regs().pc,
    {
        self.pc
    }

    pub fn set_a(&mut self, value: u8)
        ensures
            final(self).regs() == (Registers { a: value, ..old(self).regs() }),
            old(self).same_devices(*final(self)),
            final(self).ticks() == old(self).ticks(),
    {
        self.a = value;
    }

    pub fn set_x(&mut self, value: u8)
        ensures
            final(self).regs() == (Registers { x: value, ..old(self).regs() }),
            old(self).same_devices(*final(self)),
            final(self).ticks() == old(self).ticks(),
    {
        self.x = value;
    }

    pub fn set_y(&mut self, value: u8)
        ensures
            final(self).regs() == (Registers { y: value, ..old(self).regs() }),
            old(self).same_devices(*final(self)),
            final(self).ticks() == old(self).ticks(),
    {
        self.y = value;
    }

    pub fn set_pc(&mut self, value: u16)
        ensures
            final(self).regs() == (Registers { pc: value, ..old(self).regs() }),
            old(self).same_devices(*final(self)),
            final(self).ticks() == old(self).ticks(),
    {
        self.pc = value;
    }

    pub fn set_flag(&mut self, flag: Flag, value: bool)
        ensures
            final(self).regs() == (Registers {
                p: with_flag(old(self).regs().p, flag.spec_mask(), value),
                ..old(self).regs()
            }),
            old(self).same_devices(*final(self)),
            final(self).ticks() == old(self).ticks(),
    {
        if value {
            self.p = self.p | flag.mask();
        } else {
            self.p = self.p & !flag.mask();
        }
    }

    pub fn test_flag(&self, flag: Flag) -> (set: bool)
        ensures
            set == flag_set(self.regs().p, flag.spec_mask()),
    {
        (self.p & flag.mask()) != 0
    }

    pub fn update_nz(&mut self, value: u8)
        ensures
            final(self).regs() == (Registers { p: with_nz(old(self).regs().p, value), ..old(self).regs() }),
            old(self).same_devices(*final(self)),
            final(self).ticks() == old(self).ticks(),
    {
        assert(value & 0x80 != 0 <==> value >= 0x80) by (bit_vector);
        self.set_flag(Flag::Negative, value & 0x80 != 0);
        self.set_flag(Flag::Zero, value == 0);
    }

    // -- Memory Ops

    /// Counts one bus cycle: calls `tick_fn` once.
    pub(crate) fn tick<T: Fn()>(&mut self, tick_fn: &T)
        requires
            call_requires(*tick_fn, ()),
        ensures
            old(self).idled(1, *final(self)),
    {
        tick_fn();
        self.clock = Ghost(self.clock@ + 1);
    }

    pub fn read<T: Fn()>(&mut self, address: u16, tick_fn: &T) -> (value: u8)
        requires
            call_requires(*tick_fn, ()),
        ensures
            value == old(self).load(address),
            old(self).idled(1, *final(self)),
    {
        let value = if address == 0x0000 {
            self.io_port.get_direction()
        } else if address == 0x0001 {
            self.io_port.get_value()
        } else {
            self.mem.read(address)
        };
        self.tick(tick_fn);
        value
    }

    pub fn read_word<T: Fn()>(&mut self, address: u16, tick_fn: &T) -> (w: u16)
        requires
            address != 0xffff,
            call_requires(*tick_fn, ()),
        ensures
            w == old(self).load_word(address),
            old(self).idled(2, *final(self)),
    {
        let low = self.read(address, tick_fn);
        let high = self.read(address + 1, tick_fn);
        let w = ((high as u16) << 8) | low as u16;
        assert(((high as u16) << 8) | (low as u16) == high as int * 256 + low as int) by (bit_vector);
        w
    }

    pub fn write<T: Fn()>(&mut self, address: u16, value: u8, tick_fn: &T)
        requires
            call_requires(*tick_fn, ()),
        ensures
            final(self).regs() == old(self).regs(),
            old(self).wrote(*final(self), seq![(address, value)]),
            final(self).ticks() == old(self).ticks() + 1,
    {
        if address == 0x0000 {
            self.io_port.set_direction(value);
        } else if address == 0x0001 {
            self.io_port.set_value(value);
        }
        self.mem.write(address, value);
        self.bus = Ghost(self.bus@.push((address, value)));
        proof {
            reveal(stored_writes);
            let ws = seq![(address, value)];
            assert(ws.drop_last() =~= Seq::<(u16, u8)>::empty());
            assert(self.bus@ =~= old(self).bus@ + ws);
            assert(port_after(old(self).io_port@, ws.drop_last()) == old(self).io_port@);
            assert(forall|a: u16| #[trigger] mem_after(old(self).mem, ws, a) == (if a == address {
                value
            } else {
                mem_after(old(self).mem, ws.drop_last(), a)
            }));
            assert(self.bus_writes() == old(self).bus_writes() + ws);
            assert(self.port()@ == port_after(old(self).port()@, ws));
            assert(stored_writes(old(self).memory(), self.memory(), ws));
            assert(old(self).wrote_bus(*self, ws));
            assert(self.irq_line() == old(self).irq_line() && self.nmi_line() == old(self).nmi_line());
        }
        self.tick(tick_fn);
    }

    pub fn fetch_byte<T: Fn()>(&mut self, tick_fn: &T) -> (byte: u8)
        requires
            call_requires(*tick_fn, ()),
        ensures
            byte == old(self).load(old(self).regs().pc),
            final(self).regs() == (Registers { pc: add16(old(self).regs().pc, 1), ..old(self).regs() }),
            old(self).same_devices(*final(self)),
            final(self).ticks() == old(self).ticks() + 1,
    {
        let byte = self.read(self.pc, tick_fn);
        self.pc = self.pc.wrapping_add(1);
        byte
    }

    pub fn fetch_word<T: Fn()>(&mut self, tick_fn: &T) -> (w: u16)
        requires
            old(self).regs().pc != 0xffff,
            call_requires(*tick_fn, ()),
        ensures
            w == old(self).load_word(old(self).regs().pc),
            final(self).regs() == (Registers { pc: add16(old(self).regs().pc, 2), ..old(self).regs() }),
            old(self).same_devices(*final(self)),
            final(self).ticks() == old(self).ticks() + 2,
    {
        let w = self.read_word(self.pc, tick_fn);
        self.pc = self.pc.wrapping_add(2);
        w
    }

    pub fn pop<T: Fn()>(&mut self, tick_fn: &T) -> (value: u8)
        requires
            call_requires(*tick_fn, ()),
        ensures
            old(self).popped(value, *final(self)),
    {
        self.sp = self.sp.wrapping_add(1);
        let addr = 0x0100 + self.sp as u16;
        self.read(addr, tick_fn)
    }

    pub fn push<T: Fn()>(&mut self, value: u8, tick_fn: &T)
        requires
            call_requires(*tick_fn, ()),
        ensures
            old(self).pushed(value, *final(self)),
    {
        let addr = 0x0100 + self.sp as u16;
        self.sp = self.sp.wrapping_sub(1);
        self.write(addr, value, tick_fn);
    }

    /// Runs the interrupt sequence of `interrupt` and returns its cycle count.
    #[verifier::rlimit(100)]
    pub fn interrupt<T: Fn()>(&mut self, interrupt: Interrupt, tick_fn: &T) -> (cycles: u8)
        requires
            interrupt == Interrupt::Break ==> old(self).regs().pc != 0xffff,
            call_requires(*tick_fn, ()),
        ensures
            cycles == 7,
            old(self).interrupted(interrupt, *final(self)),
    {
        let pc = self.pc;
        let p = self.p;
        let ghost s0 = *self;
        assert(((pc >> 8) & 0xff) == pc as int / 256 && (pc & 0xff) == pc as int % 256) by (bit_vector);
        assert(p & 0xef == p & !0x10u8) by (bit_vector);
        match interrupt {
            Interrupt::Irq => {
                self.push(((pc >> 8) & 0xff) as u8, tick_fn);
                let ghost s1 = *self;
                self.push((pc & 0xff) as u8, tick_fn);
                let ghost s2 = *self;
                self.push(p & 0xef, tick_fn);
                let ghost s3 = *self;
                proof {
                    Self::lemma_three_pushes(s0, s1, s2, s3, hi(pc), lo(pc), p & 0xef);
                    assert(seq![(stack_address(s0.sp), hi(pc)), (stack_address(s1.sp), lo(pc)), (stack_address(s2.sp), p & 0xef)] =~= interrupt_writes(s0.regs(), interrupt));
                }
                self.set_flag(Flag::IntDisable, true);
            },
            Interrupt::Nmi => {
                self.push(((pc >> 8) & 0xff) as u8, tick_fn);
                let ghost s1 = *self;
                self.push((pc & 0xff) as u8, tick_fn);
                let ghost s2 = *self;
                self.push(p & 0xef, tick_fn);
                let ghost s3 = *self;
                proof {
                    Self::lemma_three_pushes(s0, s1, s2, s3, hi(pc), lo(pc), p & 0xef);
                    assert(seq![(stack_address(s0.sp), hi(pc)), (stack_address(s1.sp), lo(pc)), (stack_address(s2.sp), p & 0xef)] =~= interrupt_writes(s0.regs(), interrupt));
                }
                self.set_flag(Flag::IntDisable, true);
                self.nmi.reset();
            },
            Interrupt::Break => {
                let ret: u16 = pc + 1;
                assert(((ret >> 8) & 0xff) == ret as int / 256 && (ret & 0xff) == ret as int % 256) by (bit_vector);
                self.push(((ret >> 8) & 0xff) as u8, tick_fn);
                let ghost s1 = *self;
                self.push((ret & 0xff) as u8, tick_fn);
                let ghost s2 = *self;
                let status = p | Flag::Break.mask() | Flag::Reserved.mask();
                self.push(status, tick_fn);
                let ghost s3 = *self;
                proof {
                    Self::lemma_three_pushes(s0, s1, s2, s3, hi(ret), lo(ret), status);
                    assert(seq![(stack_address(s0.sp), hi(ret)), (stack_address(s1.sp), lo(ret)), (stack_address(s2.sp), status)] =~= interrupt_writes(s0.regs(), interrupt));
                }
                self.set_flag(Flag::IntDisable, true);
            },
            Interrupt::Reset => {},
        }
        self.pc = self.read_word(interrupt.vector(), tick_fn);
        self.tick(tick_fn);
        7
    }

    /// Executes one decoded instruction.
    pub fn execute<T: Fn()>(&mut self, instr: &Instruction, tick_fn: &T)
        requires
            instr.valid(),
            *instr is BRK ==> old(self).regs().pc != 0xffff,
            call_requires(*tick_fn, ()),
        ensures
            old(self).executes(*instr, *final(self)),
    {
        match *instr {
            Instruction::LDA(..) | Instruction::LDX(..) | Instruction::LDY(..) | Instruction::PHA(..)
            | Instruction::PHP(..) | Instruction::PLA(..) | Instruction::PLP(..) | Instruction::STA(..)
            | Instruction::STX(..) | Instruction::STY(..) | Instruction::TAX(..) | Instruction::TAY(..)
            | Instruction::TSX(..) | Instruction::TXA(..) | Instruction::TXS(..) | Instruction::TYA(..) => {
                self.execute_data_movement(instr, tick_fn)
            },
            Instruction::ADC(..) | Instruction::SBC(..) | Instruction::CMP(..) | Instruction::CPX(..)
            | Instruction::CPY(..) | Instruction::DEC(..) | Instruction::DEX(..) | Instruction::DEY(..)
            | Instruction::INC(..) | Instruction::INX(..) | Instruction::INY(..) => {
                self.execute_arithmetic(instr, tick_fn)
            },
            Instruction::AND(..) | Instruction::EOR(..) | Instruction::ORA(..) | Instruction::ASL(..)
            | Instruction::LSR(..) | Instruction::ROL(..) | Instruction::ROR(..) => {
                self.execute_logical(instr, tick_fn)
            },
            Instruction::BCC(..) | Instruction::BCS(..) | Instruction::BEQ(..) | Instruction::BMI(..)
            | Instruction::BNE(..) | Instruction::BPL(..) | Instruction::BVC(..) | Instruction::BVS(..)
            | Instruction::JMP(..) | Instruction::JSR(..) | Instruction::RTS(..) => {
                self.execute_control_flow(instr, tick_fn)
            },
            _ => self.execute_misc(instr, tick_fn),
        }
    }

    #[verifier::rlimit(100)]
    #[verifier::spinoff_prover]
    fn execute_data_movement<T: Fn()>(&mut self, instr: &Instruction, tick_fn: &T)
        requires
            group(*instr) == 0,
            instr.valid(),
            call_requires(*tick_fn, ()),
        ensures
            old(self).executes(*instr, *final(self)),
    {
        match *instr {
            Instruction::LDA(op, _) => {
                let value = op.get(self, tick_fn);
                self.update_nz(value);
                self.a = value;
            },
            Instruction::LDX(op, _) => {
                let value = op.get(self, tick_fn);
                self.update_nz(value);
                self.x = value;
            },
            Instruction::LDY(op, _) => {
                let value = op.get(self, tick_fn);
                self.update_nz(value);
                self.y = value;
            },
            Instruction::PHA(_) => {
                let value = self.a;
                self.push(value, tick_fn);
                self.tick(tick_fn);
            },
            Instruction::PHP(_) => {
                // NOTE undocumented behavior
                let value = self.p | Flag::Break.mask() | Flag::Reserved.mask();
                self.push(value, tick_fn);
                self.tick(tick_fn);
            },
            Instruction::PLA(_) => {
                let value = self.pop(tick_fn);
                self.update_nz(value);
                self.a = value;
                self.tick(tick_fn);
                self.tick(tick_fn);
            },
            Instruction::PLP(_) => {
                let value = self.pop(tick_fn);
                self.p = value;
                self.tick(tick_fn);
                self.tick(tick_fn);
            },
            Instruction::STA(op, _) => {
                let value = self.a;
                op.set(self, value, true, tick_fn);
            },
            Instruction::STX(op, _) => {
                let value = self.x;
                op.set(self, value, true, tick_fn);
            },
            Instruction::STY(op, _) => {
                let value = self.y;
                op.set(self, value, true, tick_fn);
            },
            Instruction::TAX(_) => {
                let value = self.a;
                self.update_nz(value);
                self.x = value;
                self.tick(tick_fn);
            },
            Instruction::TAY(_) => {
                let value = self.a;
                self.update_nz(value);
                self.y = value;
                self.tick(tick_fn);
            },
            Instruction::TSX(_) => {
                let value = self.sp;
                self.update_nz(value);
                self.x = value;
                self.tick(tick_fn);
            },
            Instruction::TXA(_) => {
                let value = self.x;
                self.update_nz(value);
                self.a = value;
                self.tick(tick_fn);
            },
            Instruction::TXS(_) => {
                let value = self.x;
                // NOTE do not set nz
                self.sp = value;
                self.tick(tick_fn);
            },
            Instruction::TYA(_) => {
                let value = self.y;
                self.update_nz(value);
                self.a = value;
                self.tick(tick_fn);
            },
            _ => {},
        }
    }


    #[verifier::spinoff_prover]
    fn execute_arithmetic<T: Fn()>(&mut self, instr: &Instruction, tick_fn: &T)
        requires
            group(*instr) == 1,
            instr.valid(),
            call_requires(*tick_fn, ()),
        ensures
            old(self).executes(*instr, *final(self)),
    {
        match *instr {
            Instruction::ADC(..) => self.execute_adc(instr, tick_fn),
            Instruction::SBC(..) => self.execute_sbc(instr, tick_fn),
            Instruction::CMP(..) | Instruction::CPX(..) | Instruction::CPY(..) => self.execute_compare(instr, tick_fn),
            Instruction::DEC(..) | Instruction::INC(..) => self.execute_step_operand(instr, tick_fn),
            Instruction::DEX(_) => {
                let result = self.x.wrapping_sub(1);
                self.update_nz(result);
                self.x = result;
                self.tick(tick_fn);
            },
            Instruction::DEY(_) => {
                let result = self.y.wrapping_sub(1);
                self.update_nz(result);
                self.y = result;
                self.tick(tick_fn);
            },
            Instruction::INX(_) => {
                let result = self.x.wrapping_add(1);
                self.update_nz(result);
                self.x = result;
                self.tick(tick_fn);
            },
            Instruction::INY(_) => {
                let result = self.y.wrapping_add(1);
                self.update_nz(result);
                self.y = result;
                self.tick(tick_fn);
            },
            _ => {},
        }
    }

    #[verifier::spinoff_prover]
    fn execute_adc<T: Fn()>(&mut self, instr: &Instruction, tick_fn: &T)
        requires
            *instr is ADC,
            call_requires(*tick_fn, ()),
        ensures
            old(self).executes(*instr, *final(self)),
    {
        if let Instruction::ADC(op, _) = *instr {
            let ac = self.a as u16;
            let operand = op.get(self, tick_fn);
            let value = operand as u16;
            let carry: u16 = if self.test_flag(Flag::Carry) { 1 } else { 0 };
            let temp = if !self.test_flag(Flag::Decimal) {
                ac.wrapping_add(value).wrapping_add(carry)
            } else {
                proof {
                    lemma_nibbles(ac);
                    lemma_nibbles(value);
                }
                let mut t = (ac & 0x0f) + (value & 0x0f) + carry;
                if t > 0x09 {
                    t += 0x06;
                }
                t += (ac & 0xf0) + (value & 0xf0);
                if t & 0x01f0 > 0x90 {
                    t += 0x60;
                }
                assert(t == bcd_add(ac as u8, operand, carry));
                t
            };
            proof {
                lemma_adc_exec(ac as u8, operand, self.p, temp);
            }
            self.set_flag(Flag::Overflow, (ac ^ value) & 0x80 == 0 && (ac ^ temp) & 0x80 == 0x80);
            self.set_flag(Flag::Carry, temp > 0xff);
            let result = (temp & 0xff) as u8;
            self.update_nz(result);
            self.a = result;
        }
    }

    #[verifier::spinoff_prover]
    fn execute_sbc<T: Fn()>(&mut self, instr: &Instruction, tick_fn: &T)
        requires
            *instr is SBC,
            call_requires(*tick_fn, ()),
        ensures
            old(self).executes(*instr, *final(self)),
    {
        if let Instruction::SBC(op, _) = *instr {
            let ac = self.a as u16;
            let operand = op.get(self, tick_fn);
            let value = operand as u16;
            let carry: u16 = if self.test_flag(Flag::Carry) { 0 } else { 1 };
            let temp = if !self.test_flag(Flag::Decimal) {
                ac.wrapping_sub(value).wrapping_sub(carry)
            } else {
                let mut t = (ac & 0x0f).wrapping_sub(value & 0x0f).wrapping_sub(carry);
                if t & 0x10 != 0 {
                    t = (t.wrapping_sub(0x06) & 0x0f) | ((ac & 0xf0).wrapping_sub(value & 0xf0).wrapping_sub(
                        0x10,
                    ));
                } else {
                    t = (t & 0x0f) | ((ac & 0xf0).wrapping_sub(value & 0xf0));
                }
                proof {
                    lemma_bit8_set(t);
                }
                if t & 0x0100 != 0 {
                    t -= 0x60;
                }
                assert(t == bcd_sub(ac as u8, operand, carry));
                t
            };
            proof {
                lemma_sbc_exec(ac as u8, operand, self.p, temp);
            }
            self.set_flag(Flag::Overflow, (ac ^ temp) & 0x80 != 0 && (ac ^ value) & 0x80 == 0x80);
            self.set_flag(Flag::Carry, temp < 0x100);
            let result = (temp & 0xff) as u8;
            self.update_nz(result);
            self.a = result;
        }
    }

    /// CMP, CPX and CPY.
    #[verifier::spinoff_prover]
    fn execute_compare<T: Fn()>(&mut self, instr: &Instruction, tick_fn: &T)
        requires
            *instr is CMP || *instr is CPX || *instr is CPY,
            call_requires(*tick_fn, ()),
        ensures
            old(self).executes(*instr, *final(self)),
    {
        let (register, op) = match *instr {
            Instruction::CMP(op, _) => (self.a, op),
            Instruction::CPX(op, _) => (self.x, op),
            Instruction::CPY(op, _) => (self.y, op),
            _ => (0, Operand::Accumulator),
        };
        let operand = op.get(self, tick_fn);
        let result = (register as u16).wrapping_sub(operand as u16);
        proof {
            lemma_compare_exec(register, operand, self.p, result);
        }
        self.set_flag(Flag::Carry, result < 0x100);
        self.update_nz((result & 0xff) as u8);
    }

    /// DEC and INC.
    #[verifier::spinoff_prover]
    fn execute_step_operand<T: Fn()>(&mut self, instr: &Instruction, tick_fn: &T)
        requires
            *instr is DEC || *instr is INC,
            instr.valid(),
            call_requires(*tick_fn, ()),
        ensures
            old(self).executes(*instr, *final(self)),
    {
        match *instr {
            Instruction::DEC(op, _) => {
                let result = op.get(self, tick_fn).wrapping_sub(1);
                self.update_nz(result);
                proof {
                    op.lemma_rmw_set_ticks(*old(self), *self);
                }
                op.set(self, result, true, tick_fn);
                self.tick(tick_fn);
            },
            Instruction::INC(op, _) => {
                let result = op.get(self, tick_fn).wrapping_add(1);
                self.update_nz(result);
                proof {
                    op.lemma_rmw_set_ticks(*old(self), *self);
                }
                op.set(self, result, true, tick_fn);
                self.tick(tick_fn);
            },
            _ => {},
        }
    }

    #[verifier::spinoff_prover]
    fn execute_logical<T: Fn()>(&mut self, instr: &Instruction, tick_fn: &T)
        requires
            group(*instr) == 2,
            instr.valid(),
            call_requires(*tick_fn, ()),
        ensures
            old(self).executes(*instr, *final(self)),
    {
        match *instr {
            Instruction::AND(op, _) => {
                let result = op.get(self, tick_fn) & self.a;
                self.update_nz(result);
                self.a = result;
            },
            Instruction::EOR(op, _) => {
                let result = op.get(self, tick_fn) ^ self.a;
                self.update_nz(result);
                self.a = result;
            },
            Instruction::ORA(op, _) => {
                let result = op.get(self, tick_fn) | self.a;
                self.update_nz(result);
                self.a = result;
            },
            _ => self.execute_shift(instr, tick_fn),
        }
    }

    /// ASL, LSR, ROL and ROR.
    #[verifier::spinoff_prover]
    fn execute_shift<T: Fn()>(&mut self, instr: &Instruction, tick_fn: &T)
        requires
            *instr is ASL || *instr is LSR || *instr is ROL || *instr is ROR,
            instr.valid(),
            call_requires(*tick_fn, ()),
        ensures
            old(self).executes(*instr, *final(self)),
    {
        match *instr {
            Instruction::ASL(op, _) => {
                let value = op.get(self, tick_fn);
                proof {
                    lemma_shifts_exec(value, false);
                }
                self.set_flag(Flag::Carry, (value & 0x80) != 0);
                let result = value << 1;
                self.update_nz(result);
                proof {
                    op.lemma_rmw_set_ticks(*old(self), *self);
                }
                op.set(self, result, true, tick_fn);
                self.tick(tick_fn);
            },
            Instruction::LSR(op, _) => {
                let value = op.get(self, tick_fn);
                proof {
                    lemma_shifts_exec(value, false);
                }
                self.set_flag(Flag::Carry, (value & 0x01) != 0);
                let result = value >> 1;
                self.update_nz(result);
                proof {
                    op.lemma_rmw_set_ticks(*old(self), *self);
                }
                op.set(self, result, true, tick_fn);
                self.tick(tick_fn);
            },
            Instruction::ROL(op, _) => {
                let value = op.get(self, tick_fn);
                let c = self.test_flag(Flag::Carry);
                proof {
                    lemma_shifts_exec(value, c);
                }
                let mut temp = (value as u16) << 1;
                if c {
                    temp |= 0x01
                };
                self.set_flag(Flag::Carry, temp > 0xff);
                let result = (temp & 0xff) as u8;
                self.update_nz(result);
                proof {
                    op.lemma_rmw_set_ticks(*old(self), *self);
                }
                op.set(self, result, true, tick_fn);
                self.tick(tick_fn);
            },
            Instruction::ROR(op, _) => {
                let operand = op.get(self, tick_fn);
                let c = self.test_flag(Flag::Carry);
                proof {
                    lemma_shifts_exec(operand, c);
                }
                let value = operand as u16;
                let mut temp = if c {
                    value | 0x100
                } else {
                    value
                };
                self.set_flag(Flag::Carry, temp & 0x01 != 0);
                temp >>= 1;
                let result = (temp & 0xff) as u8;
                self.update_nz(result);
                proof {
                    op.lemma_rmw_set_ticks(*old(self), *self);
                }
                op.set(self, result, true, tick_fn);
                self.tick(tick_fn);
            },
            _ => {},
        }
    }

    #[verifier::spinoff_prover]
    fn execute_control_flow<T: Fn()>(&mut self, instr: &Instruction, tick_fn: &T)
        requires
            group(*instr) == 3,
            instr.valid(),
            call_requires(*tick_fn, ()),
        ensures
            old(self).executes(*instr, *final(self)),
    {
        match *instr {
            Instruction::BCC(op, _) => {
                if !self.test_flag(Flag::Carry) {
                    self.pc = op.ea(self, false, tick_fn);
                }
            },
            Instruction::BCS(op, _) => {
                if self.test_flag(Flag::Carry) {
                    self.pc = op.ea(self, false, tick_fn);
                }
            },
            Instruction::BEQ(op, _) => {
                if self.test_flag(Flag::Zero) {
                    self.pc = op.ea(self, false, tick_fn);
                }
            },
            Instruction::BMI(op, _) => {
                if self.test_flag(Flag::Negative) {
                    self.pc = op.ea(self, false, tick_fn);
                }
            },
            Instruction::BNE(op, _) => {
                if !self.test_flag(Flag::Zero) {
                    self.pc = op.ea(self, false, tick_fn);
                }
            },
            Instruction::BPL(op, _) => {
                if !self.test_flag(Flag::Negative) {
                    self.pc = op.ea(self, false, tick_fn);
                }
            },
            Instruction::BVC(op, _) => {
                if !self.test_flag(Flag::Overflow) {
                    self.pc = op.ea(self, false, tick_fn);
                }
            },
            Instruction::BVS(op, _) => {
                if self.test_flag(Flag::Overflow) {
                    self.pc = op.ea(self, false, tick_fn);
                }
            },
            _ => self.execute_jump(instr, tick_fn),
        }
    }

    #[verifier::rlimit(100)]
    #[verifier::spinoff_prover]
    fn execute_misc<T: Fn()>(&mut self, instr: &Instruction, tick_fn: &T)
        requires
            group(*instr) == 4,
            instr.valid(),
            *instr is BRK ==> old(self).regs().pc != 0xffff,
            call_requires(*tick_fn, ()),
        ensures
            old(self).executes(*instr, *final(self)),
    {
        match *instr {
            Instruction::BIT(op, _) => {
                let value = op.get(self, tick_fn);
                let a = self.a;
                proof {
                    lemma_byte_bits(value);
                }
                self.set_flag(Flag::Negative, value & 0x80 != 0);
                self.set_flag(Flag::Overflow, 0x40 & value != 0);
                self.set_flag(Flag::Zero, value & a == 0);
            },
            Instruction::BRK(_) => {
                self.interrupt(Interrupt::Break, tick_fn);
            },
            Instruction::CLC(_) => {
                self.set_flag(Flag::Carry, false);
                self.tick(tick_fn);
            },
            Instruction::CLD(_) => {
                self.set_flag(Flag::Decimal, false);
                self.tick(tick_fn);
            },
            Instruction::CLI(_) => {
                self.set_flag(Flag::IntDisable, false);
                self.tick(tick_fn);
            },
            Instruction::CLV(_) => {
                self.set_flag(Flag::Overflow, false);
                self.tick(tick_fn);
            },
            Instruction::NOP(_) => {
                self.tick(tick_fn);
            },
            Instruction::SEC(_) => {
                self.set_flag(Flag::Carry, true);
                self.tick(tick_fn);
            },
            Instruction::SED(_) => {
                self.set_flag(Flag::Decimal, true);
                self.tick(tick_fn);
            },
            Instruction::SEI(_) => {
                self.set_flag(Flag::IntDisable, true);
                self.tick(tick_fn);
            },
            Instruction::RTI(_) => {
                self.p = self.pop(tick_fn);
                let low = self.pop(tick_fn);
                let high = self.pop(tick_fn);
                proof {
                    lemma_word(low, high);
                }
                let address = (low as u16) | ((high as u16) << 8);
                self.pc = address;
                self.tick(tick_fn);
                self.tick(tick_fn);
            },
            _ => {},
        }
    }

    /// JMP, JSR and RTS.
    #[verifier::spinoff_prover]
    fn execute_jump<T: Fn()>(&mut self, instr: &Instruction, tick_fn: &T)
        requires
            *instr is JMP || *instr is JSR || *instr is RTS,
            instr.valid(),
            call_requires(*tick_fn, ()),
        ensures
            old(self).executes(*instr, *final(self)),
    {
        match *instr {
            Instruction::JMP(op, _) => {
                self.pc = op.ea(self, false, tick_fn);
            },
            Instruction::JSR(op, _) => {
                let pc = self.pc.wrapping_sub(1);
                let ghost s0 = *self;
                assert(((pc >> 8) & 0xff) == pc as int / 256 && (pc & 0xff) == pc as int % 256) by (bit_vector);
                self.push(((pc >> 8) & 0xff) as u8, tick_fn);
                let ghost s1 = *self;
                self.push((pc & 0xff) as u8, tick_fn);
                let ghost s2 = *self;
                proof {
                    Self::lemma_wrote_then(s0, s1, s2, seq![(stack_address(s0.sp), hi(pc))], seq![(stack_address(s1.sp), lo(pc))]);
                    assert(seq![(stack_address(s0.sp), hi(pc))] + seq![(stack_address(s1.sp), lo(pc))] =~= instr.bus_writes_in(s0));
                }
                self.pc = op.ea(self, false, tick_fn);
                self.tick(tick_fn);
            },
            Instruction::RTS(_) => {
                let low = self.pop(tick_fn);
                let high = self.pop(tick_fn);
                proof {
                    lemma_word(low, high);
                }
                let address = (low as u16) | ((high as u16) << 8);
                self.pc = address.wrapping_add(1);
                self.tick(tick_fn);
                self.tick(tick_fn);
                self.tick(tick_fn);
            },
            _ => {},
        }
    }

    /// Services a pending interrupt, then fetches, decodes and executes one
    /// instruction. Returns whether an instruction ran; it does not when the
    /// opcode fetched encodes no documented instruction, or is BRK at 0xfffe.
    pub fn step<T: Fn()>(&mut self, tick_fn: &T) -> (executed: bool)
        requires
            call_requires(*tick_fn, ()),
        ensures
            executed ==> exists|s1: Self, s2: Self, instr: Instruction|
                #![trigger old(self).serviced(s1), s1.fetched(instr, s2)]
                {
                    &&& old(self).serviced(s1)
                    &&& s1.fetched(instr, s2)
                    &&& s2.executes(instr, *final(self))
                },
            !executed ==> exists|s1: Self| #![trigger old(self).serviced(s1)]
                {
                    &&& old(self).serviced(s1)
                    &&& s1.jammed(*final(self))
                },
    {
        let ghost s0 = *self;
        if self.nmi.is_low() {
            self.interrupt(Interrupt::Nmi, tick_fn);
        } else if self.irq.is_low() && !self.test_flag(Flag::IntDisable) {
            self.interrupt(Interrupt::Irq, tick_fn);
        }
        let ghost s1 = *self;
        assert(s0.serviced(s1));
        let opcode = self.fetch_byte(tick_fn);
        match Instruction::decode(self, opcode, tick_fn) {
            Some(instr) => {
                if self.pc == 0xffff && matches!(instr, Instruction::BRK(_)) {
                    assert(s1.jammed(*self));
                    return false;
                }
                let ghost s2 = *self;
                assert(s1.fetched(instr, s2));
                self.execute(&instr, tick_fn);
                true
            },
            None => {
                assert(s1.jammed(*self));
                false
            },
        }
    }

    /// Powers the CPU up: clears the registers and both interrupt lines,
    /// configures the I/O port (direction 0x2f, value 0x1f) and runs the
    /// reset sequence, which loads the program counter from 0xfffc.
    pub fn reset(&mut self)
        ensures
            old(self).was_reset(*final(self)),
    {
        self.a = 0;
        self.x = 0;
        self.y = 0;
        self.p = 0;
        self.pc = 0;
        self.sp = 0;
        self.irq.reset();
        self.nmi.reset();
        self.io_port.set_value(0xff);
        // The sequence runs without a caller's tick function: no cycle is counted.
        let ghost clock = self.clock@;
        let tick_fn = || {};
        let ghost s0 = *self;
        self.write(0x0000, 0b0010_1111, &tick_fn);
        let ghost s1 = *self;
        self.write(0x0001, 0b0001_1111, &tick_fn);
        let ghost s2 = *self;
        self.interrupt(Interrupt::Reset, &tick_fn);
        proof {
            let ws = seq![(0x0000u16, 0x2fu8), (0x0001u16, 0x1fu8)];
            Self::lemma_wrote_then(s0, s1, s2, seq![(0x0000u16, 0x2fu8)], seq![(0x0001u16, 0x1fu8)]);
            assert(seq![(0x0000u16, 0x2fu8)] + seq![(0x0001u16, 0x1fu8)] =~= ws);
            Self::lemma_wrote_bus_then(s0, s2, *self, ws, Seq::empty());
            assert(ws + Seq::<(u16, u8)>::empty() =~= ws);
            assert(ws.drop_last() =~= seq![(0x0000u16, 0x2fu8)]);
            assert(ws.drop_last().drop_last() =~= Seq::<(u16, u8)>::empty());
            assert(port_after(old(self).io_port@, ws.drop_last()).0 == 0x2f);
            assert(port_after(s0.io_port@, ws.drop_last()).0 == 0x2f);
            assert(port_after(old(self).io_port@, ws) == (0x2fu8, 0x1fu8));
            assert(port_after(s0.io_port@, ws) == (0x2fu8, 0x1fu8));
        }
        self.clock = Ghost(clock);
    }

    /// Writes `value` at `address` as a debugger does: through the I/O port
    /// and the memory controller, without a bus cycle.
    pub fn write_debug(&mut self, address: u16, value: u8)
        ensures
            final(self).regs() == old(self).regs(),
            old(self).wrote(*final(self), seq![(address, value)]),
            final(self).ticks() == old(self).ticks(),
    {
        // No caller's tick function runs: no cycle is counted.
        let ghost clock = self.clock@;
        let tick_fn = || {};
        self.write(address, value, &tick_fn);
        self.clock = Ghost(clock);
    }

    /// The one-line register dump (see `status_text`).
    pub fn status(&self) -> (text: String)
        ensures
            text@ == status_text(self.regs()),
    {
        let mut text = String::new();
        proof {
            reveal_strlit(" ");
            reveal_strlit("N");
            reveal_strlit("n");
            reveal_strlit("V");
            reveal_strlit("v");
            reveal_strlit("B");
            reveal_strlit("b");
            reveal_strlit("D");
            reveal_strlit("d");
            reveal_strlit("I");
            reveal_strlit("i");
            reveal_strlit("Z");
            reveal_strlit("z");
            reveal_strlit("C");
            reveal_strlit("c");
        }
        append_hex_byte(&mut text, self.a);
        text.append(" ");
        append_hex_byte(&mut text, self.x);
        text.append(" ");
        append_hex_byte(&mut text, self.y);
        text.append(" ");
        append_hex_byte(&mut text, self.sp);
        text.append(" ");
        append_flag_letter(&mut text, self.test_flag(Flag::Negative), "N", "n");
        append_flag_letter(&mut text, self.test_flag(Flag::Overflow), "V", "v");
        append_flag_letter(&mut text, self.test_flag(Flag::Decimal), "B", "b");
        append_flag_letter(&mut text, self.test_flag(Flag::Decimal), "D", "d");
        append_flag_letter(&mut text, self.test_flag(Flag::IntDisable), "I", "i");
        append_flag_letter(&mut text, self.test_flag(Flag::Zero), "Z", "z");
        append_flag_letter(&mut text, self.test_flag(Flag::Carry), "C", "c");
        assert(text@ =~= status_text(self.regs()));
        text
    }
}

} // verus!
