use vstd::prelude::*;

use crate::alu::{adc, sbc, compare, asl, lsr, rol, ror, add8, add16, hi, lo, lemma_word};
use crate::cpu::{Cpu6510, Registers, Interrupt, interrupt_regs, interrupt_writes, interrupt_ticks, stack_address, word};
use crate::flags::{flag_set, with_flag, with_nz, CARRY, ZERO, INT_DISABLE, DECIMAL, BREAK, RESERVED, OVERFLOW, NEGATIVE};
use crate::memory::MemoryController;
use crate::operand::Operand;

verus! {

/// A decoded 6510 instruction: the mnemonic, its operand where it has one,
/// and the instruction's base cycle count as listed in the opcode table.
#[derive(Clone, Copy, PartialEq, Eq, Debug, Structural)]
pub enum Instruction {
    // Data Movement
    LDA(Operand, u8),
    LDX(Operand, u8),
    LDY(Operand, u8),
    PHA(u8),
    PHP(u8),
    PLA(u8),
    PLP(u8),
    STA(Operand, u8),
    STX(Operand, u8),
    STY(Operand, u8),
    TAX(u8),
    TAY(u8),
    TSX(u8),
    TXA(u8),
    TXS(u8),
    TYA(u8),
    // Arithmetic
    ADC(Operand, u8),
    SBC(Operand, u8),
    CMP(Operand, u8),
    CPX(Operand, u8),
    CPY(Operand, u8),
    DEC(Operand, u8),
    DEX(u8),
    DEY(u8),
    INC(Operand, u8),
    INX(u8),
    INY(u8),
    // Logical
    AND(Operand, u8),
    EOR(Operand, u8),
    ORA(Operand, u8),
    // Shift and Rotate
    ASL(Operand, u8),
    LSR(Operand, u8),
    ROL(Operand, u8),
    ROR(Operand, u8),
    // Control Flow
    BCC(Operand, u8),
    BCS(Operand, u8),
    BEQ(Operand, u8),
    BMI(Operand, u8),
    BNE(Operand, u8),
    BPL(Operand, u8),
    BVC(Operand, u8),
    BVS(Operand, u8),
    JMP(Operand, u8),
    JSR(Operand, u8),
    RTS(u8),
    // Misc
    BIT(Operand, u8),
    BRK(u8),
    CLC(u8),
    CLD(u8),
    CLI(u8),
    CLV(u8),
    NOP(u8),
    SEC(u8),
    SED(u8),
    SEI(u8),
    RTI(u8),
}

/// The registers after a read-modify-write instruction has stored `v` into
/// `op`: the accumulator takes it when `op` is the accumulator, and the
/// status is `p`.
pub open spec fn rmw_regs(r: Registers, op: Operand, v: u8, p: u8) -> Registers {
    if op is Accumulator {
        Registers { a: v, p: p, ..r }
    } else {
        Registers { p: p, ..r }
    }
}

/// The registers after storing `v` into `op` (a store into the accumulator
/// operand sets the accumulator).
pub open spec fn store_regs(r: Registers, op: Operand, v: u8) -> Registers {
    if op is Accumulator {
        Registers { a: v, ..r }
    } else {
        r
    }
}

/// The registers after a branch on `taken` to `op`.
pub open spec fn branch_regs<M: MemoryController>(cpu: Cpu6510<M>, op: Operand, taken: bool) -> Registers {
    let r = cpu.regs();
    if taken {
        Registers { pc: op.address_in(cpu), ..r }
    } else {
        r
    }
}

impl Instruction {
    /// Whether executing the instruction is defined: stores and
    /// read-modify-write instructions need an operand that can be written,
    /// jumps and branches one that has an address.
    pub open spec fn valid(self) -> bool {
        match self {
            Instruction::STA(op, _) => !(op is Immediate),
            Instruction::STX(op, _) => !(op is Immediate),
            Instruction::STY(op, _) => !(op is Immediate),
            Instruction::DEC(op, _) => !(op is Immediate),
            Instruction::INC(op, _) => !(op is Immediate),
            Instruction::ASL(op, _) => !(op is Immediate),
            Instruction::LSR(op, _) => !(op is Immediate),
            Instruction::ROL(op, _) => !(op is Immediate),
            Instruction::ROR(op, _) => !(op is Immediate),
            Instruction::BCC(op, _) => op.has_address(),
            Instruction::BCS(op, _) => op.has_address(),
            Instruction::BEQ(op, _) => op.has_address(),
            Instruction::BMI(op, _) => op.has_address(),
            Instruction::BNE(op, _) => op.has_address(),
            Instruction::BPL(op, _) => op.has_address(),
            Instruction::BVC(op, _) => op.has_address(),
            Instruction::BVS(op, _) => op.has_address(),
            Instruction::JMP(op, _) => op.has_address(),
            Instruction::JSR(op, _) => op.has_address(),
            _ => true,
        }
    }

    /// The registers once `cpu` has executed the instruction. `after` is the
    /// CPU afterwards; it is consulted only where a read follows the
    /// instruction's writes: BRK's new program counter is the vector, and
    /// JSR's the operand's address, as read once the pushes are done.
    pub open spec fn next_regs<M: MemoryController>(self, cpu: Cpu6510<M>, after: Cpu6510<M>) -> Registers {
        let r = cpu.regs();
        match self {
            Instruction::LDA(op, _) => {
                let v = op.value_in(cpu);
                Registers { a: v, p: with_nz(r.p, v), ..r }
            },
            Instruction::LDX(op, _) => {
                let v = op.value_in(cpu);
                Registers { x: v, p: with_nz(r.p, v), ..r }
            },
            Instruction::LDY(op, _) => {
                let v = op.value_in(cpu);
                Registers { y: v, p: with_nz(r.p, v), ..r }
            },
            Instruction::PHA(_) => Registers { sp: add8(r.sp, -1), ..r },
            Instruction::PHP(_) => Registers { sp: add8(r.sp, -1), ..r },
            Instruction::PLA(_) => {
                let v = cpu.load(stack_address(add8(r.sp, 1)));
                Registers { a: v, p: with_nz(r.p, v), sp: add8(r.sp, 1), ..r }
            },
            Instruction::PLP(_) => {
                Registers { p: cpu.load(stack_address(add8(r.sp, 1))), sp: add8(r.sp, 1), ..r }
            },
            Instruction::STA(op, _) => store_regs(r, op, r.a),
            Instruction::STX(op, _) => store_regs(r, op, r.x),
            Instruction::STY(op, _) => store_regs(r, op, r.y),
            Instruction::TAX(_) => Registers { x: r.a, p: with_nz(r.p, r.a), ..r },
            Instruction::TAY(_) => Registers { y: r.a, p: with_nz(r.p, r.a), ..r },
            Instruction::TSX(_) => Registers { x: r.sp, p: with_nz(r.p, r.sp), ..r },
            Instruction::TXA(_) => Registers { a: r.x, p: with_nz(r.p, r.x), ..r },
            Instruction::TXS(_) => Registers { sp: r.x, ..r },
            Instruction::TYA(_) => Registers { a: r.y, p: with_nz(r.p, r.y), ..r },
            Instruction::ADC(op, _) => {
                let (a, p) = adc(r.a, op.value_in(cpu), r.p);
                Registers { a: a, p: p, ..r }
            },
            Instruction::SBC(op, _) => {
                let (a, p) = sbc(r.a, op.value_in(cpu), r.p);
                Registers { a: a, p: p, ..r }
            },
            Instruction::CMP(op, _) => Registers { p: compare(r.a, op.value_in(cpu), r.p), ..r },
            Instruction::CPX(op, _) => Registers { p: compare(r.x, op.value_in(cpu), r.p), ..r },
            Instruction::CPY(op, _) => Registers { p: compare(r.y, op.value_in(cpu), r.p), ..r },
            Instruction::DEC(op, _) => {
                let v = add8(op.value_in(cpu), -1);
                rmw_regs(r, op, v, with_nz(r.p, v))
            },
            Instruction::DEX(_) => {
                let v = add8(r.x, -1);
                Registers { x: v, p: with_nz(r.p, v), ..r }
            },
            Instruction::DEY(_) => {
                let v = add8(r.y, -1);
                Registers { y: v, p: with_nz(r.p, v), ..r }
            },
            Instruction::INC(op, _) => {
                let v = add8(op.value_in(cpu), 1);
                rmw_regs(r, op, v, with_nz(r.p, v))
            },
            Instruction::INX(_) => {
                let v = add8(r.x, 1);
                Registers { x: v, p: with_nz(r.p, v), ..r }
            },
            Instruction::INY(_) => {
                let v = add8(r.y, 1);
                Registers { y: v, p: with_nz(r.p, v), ..r }
            },
            Instruction::AND(op, _) => {
                let v = op.value_in(cpu) & r.a;
                Registers { a: v, p: with_nz(r.p, v), ..r }
            },
            Instruction::EOR(op, _) => {
                let v = op.value_in(cpu) ^ r.a;
                Registers { a: v, p: with_nz(r.p, v), ..r }
            },
            Instruction::ORA(op, _) => {
                let v = op.value_in(cpu) | r.a;
                Registers { a: v, p: with_nz(r.p, v), ..r }
            },
            Instruction::ASL(op, _) => {
                let (v, c) = asl(op.value_in(cpu));
                rmw_regs(r, op, v, with_nz(with_flag(r.p, CARRY, c), v))
            },
            Instruction::LSR(op, _) => {
                let (v, c) = lsr(op.value_in(cpu));
                rmw_regs(r, op, v, with_nz(with_flag(r.p, CARRY, c), v))
            },
            Instruction::ROL(op, _) => {
                let (v, c) = rol(op.value_in(cpu), flag_set(r.p, CARRY));
                rmw_regs(r, op, v, with_nz(with_flag(r.p, CARRY, c), v))
            },
            Instruction::ROR(op, _) => {
                let (v, c) = ror(op.value_in(cpu), flag_set(r.p, CARRY));
                rmw_regs(r, op, v, with_nz(with_flag(r.p, CARRY, c), v))
            },
            Instruction::BCC(op, _) => branch_regs(cpu, op, !flag_set(r.p, CARRY)),
            Instruction::BCS(op, _) => branch_regs(cpu, op, flag_set(r.p, CARRY)),
            Instruction::BEQ(op, _) => branch_regs(cpu, op, flag_set(r.p, ZERO)),
            Instruction::BMI(op, _) => branch_regs(cpu, op, flag_set(r.p, NEGATIVE)),
            Instruction::BNE(op, _) => branch_regs(cpu, op, !flag_set(r.p, ZERO)),
            Instruction::BPL(op, _) => branch_regs(cpu, op, !flag_set(r.p, NEGATIVE)),
            Instruction::BVC(op, _) => branch_regs(cpu, op, !flag_set(r.p, OVERFLOW)),
            Instruction::BVS(op, _) => branch_regs(cpu, op, flag_set(r.p, OVERFLOW)),
            Instruction::JMP(op, _) => Registers { pc: op.address_in(cpu), ..r },
            Instruction::JSR(op, _) => Registers { pc: op.address_with(r, after), sp: add8(r.sp, -2), ..r },
            Instruction::RTS(_) => {
                let low = cpu.load(stack_address(add8(r.sp, 1)));
                let high = cpu.load(stack_address(add8(r.sp, 2)));
                Registers { pc: add16(crate::cpu::word(low, high), 1), sp: add8(r.sp, 2), ..r }
            },
            Instruction::BIT(op, _) => {
                let v = op.value_in(cpu);
                let p1 = with_flag(r.p, NEGATIVE, v >= 0x80);
                let p2 = with_flag(p1, OVERFLOW, (v as int / 64) % 2 == 1);
                Registers { p: with_flag(p2, ZERO, v & r.a == 0), ..r }
            },
            Instruction::BRK(_) => interrupt_regs(r, Interrupt::Break, after.load_word(0xfffe)),
            Instruction::CLC(_) => Registers { p: with_flag(r.p, CARRY, false), ..r },
            Instruction::CLD(_) => Registers { p: with_flag(r.p, DECIMAL, false), ..r },
            Instruction::CLI(_) => Registers { p: with_flag(r.p, INT_DISABLE, false), ..r },
            Instruction::CLV(_) => Registers { p: with_flag(r.p, OVERFLOW, false), ..r },
            Instruction::NOP(_) => r,
            Instruction::SEC(_) => Registers { p: with_flag(r.p, CARRY, true), ..r },
            Instruction::SED(_) => Registers { p: with_flag(r.p, DECIMAL, true), ..r },
            Instruction::SEI(_) => Registers { p: with_flag(r.p, INT_DISABLE, true), ..r },
            Instruction::RTI(_) => {
                let p = cpu.load(stack_address(add8(r.sp, 1)));
                let low = cpu.load(stack_address(add8(r.sp, 2)));
                let high = cpu.load(stack_address(add8(r.sp, 3)));
                Registers { p: p, pc: crate::cpu::word(low, high), sp: add8(r.sp, 3), ..r }
            },
        }
    }

    /// The bus cycles the instruction takes when `cpu` executes it, once its
    /// opcode and operand bytes have been fetched: reading or writing the
    /// operand, each push and pull, and the internal cycles. `after` is the
    /// CPU afterwards, where JSR reads its target.
    pub open spec fn ticks_in<M: MemoryController>(self, cpu: Cpu6510<M>, after: Cpu6510<M>) -> nat {
        let r = cpu.regs();
        match self {
            Instruction::LDA(op, _) | Instruction::LDX(op, _) | Instruction::LDY(op, _)
            | Instruction::ADC(op, _) | Instruction::SBC(op, _) | Instruction::CMP(op, _)
            | Instruction::CPX(op, _) | Instruction::CPY(op, _) | Instruction::AND(op, _)
            | Instruction::EOR(op, _) | Instruction::ORA(op, _) | Instruction::BIT(op, _) => op.get_ticks(cpu),
            Instruction::STA(op, _) | Instruction::STX(op, _) | Instruction::STY(op, _) => op.set_ticks(cpu, true),
            Instruction::DEC(op, _) | Instruction::INC(op, _) | Instruction::ASL(op, _)
            | Instruction::LSR(op, _) | Instruction::ROL(op, _) | Instruction::ROR(op, _) => {
                op.get_ticks(cpu) + op.set_ticks(cpu, true) + 1
            },
            Instruction::PHA(_) | Instruction::PHP(_) => 2,
            Instruction::PLA(_) | Instruction::PLP(_) => 3,
            Instruction::BCC(op, _) => if !flag_set(r.p, CARRY) { op.ea_ticks(cpu, false) } else { 0 },
            Instruction::BCS(op, _) => if flag_set(r.p, CARRY) { op.ea_ticks(cpu, false) } else { 0 },
            Instruction::BEQ(op, _) => if flag_set(r.p, ZERO) { op.ea_ticks(cpu, false) } else { 0 },
            Instruction::BMI(op, _) => if flag_set(r.p, NEGATIVE) { op.ea_ticks(cpu, false) } else { 0 },
            Instruction::BNE(op, _) => if !flag_set(r.p, ZERO) { op.ea_ticks(cpu, false) } else { 0 },
            Instruction::BPL(op, _) => if !flag_set(r.p, NEGATIVE) { op.ea_ticks(cpu, false) } else { 0 },
            Instruction::BVC(op, _) => if !flag_set(r.p, OVERFLOW) { op.ea_ticks(cpu, false) } else { 0 },
            Instruction::BVS(op, _) => if flag_set(r.p, OVERFLOW) { op.ea_ticks(cpu, false) } else { 0 },
            Instruction::JMP(op, _) => op.ea_ticks(cpu, false),
            Instruction::JSR(op, _) => 3 + op.ea_ticks_with(r, after, false),
            Instruction::RTS(_) => 5,
            Instruction::RTI(_) => 5,
            Instruction::BRK(_) => interrupt_ticks(Interrupt::Break),
            _ => 1,
        }
    }

    /// The writes the instruction puts on the bus when `cpu` executes it, in order.
    pub open spec fn bus_writes_in<M: MemoryController>(self, cpu: Cpu6510<M>) -> Seq<(u16, u8)> {
        let r = cpu.regs();
        match self {
            Instruction::PHA(_) => seq![(stack_address(r.sp), r.a)],
            Instruction::PHP(_) => seq![(stack_address(r.sp), with_flag(with_flag(r.p, BREAK, true), RESERVED, true))],
            Instruction::STA(op, _) => op.store_writes(cpu, r.a),
            Instruction::STX(op, _) => op.store_writes(cpu, r.x),
            Instruction::STY(op, _) => op.store_writes(cpu, r.y),
            Instruction::DEC(op, _) => op.store_writes(cpu, add8(op.value_in(cpu), -1)),
            Instruction::INC(op, _) => op.store_writes(cpu, add8(op.value_in(cpu), 1)),
            Instruction::ASL(op, _) => op.store_writes(cpu, asl(op.value_in(cpu)).0),
            Instruction::LSR(op, _) => op.store_writes(cpu, lsr(op.value_in(cpu)).0),
            Instruction::ROL(op, _) => op.store_writes(cpu, rol(op.value_in(cpu), flag_set(r.p, CARRY)).0),
            Instruction::ROR(op, _) => op.store_writes(cpu, ror(op.value_in(cpu), flag_set(r.p, CARRY)).0),
            Instruction::JSR(_, _) => {
                let ret = add16(r.pc, -1);
                seq![(stack_address(r.sp), hi(ret)), (stack_address(add8(r.sp, -1)), lo(ret))]
            },
            Instruction::BRK(_) => interrupt_writes(r, Interrupt::Break),
            _ => Seq::empty(),
        }
    }
}

/// The base cycle count the opcode table lists for `opcode` (0 for an
/// undocumented opcode).
pub open spec fn base_cycles(opcode: u8) -> u8 {
        match opcode {
            0x00 => 7,
            0x01 => 6,
            0x05 => 3,
            0x06 => 5,
            0x08 => 3,
            0x09 => 2,
            0x0a => 2,
            0x0d => 4,
            0x0e => 6,
            0x10 => 2,
            0x11 => 5,
            0x15 => 4,
            0x16 => 6,
            0x18 => 2,
            0x19 => 4,
            0x1d => 4,
            0x1e => 7,
            0x20 => 6,
            0x21 => 6,
            0x24 => 3,
            0x25 => 3,
            0x26 => 5,
            0x28 => 4,
            0x29 => 2,
            0x2a => 2,
            0x2c => 4,
            0x2d => 4,
            0x2e => 6,
            0x30 => 2,
            0x31 => 5,
            0x35 => 4,
            0x36 => 6,
            0x38 => 2,
            0x39 => 4,
            0x3d => 4,
            0x3e => 7,
            0x40 => 6,
            0x41 => 6,
            0x45 => 3,
            0x46 => 5,
            0x48 => 3,
            0x49 => 2,
            0x4a => 2,
            0x4c => 3,
            0x4d => 4,
            0x4e => 6,
            0x50 => 2,
            0x51 => 5,
            0x55 => 4,
            0x56 => 6,
            0x58 => 2,
            0x59 => 4,
            0x5d => 4,
            0x5e => 7,
            0x60 => 6,
            0x61 => 6,
            0x65 => 3,
            0x66 => 5,
            0x68 => 4,
            0x69 => 2,
            0x6a => 2,
            0x6c => 5,
            0x6d => 4,
            0x6e => 6,
            0x70 => 2,
            0x71 => 5,
            0x75 => 4,
            0x76 => 6,
            0x78 => 2,
            0x79 => 4,
            0x7d => 4,
            0x7e => 7,
            0x81 => 6,
            0x84 => 3,
            0x85 => 3,
            0x86 => 3,
            0x88 => 2,
            0x8a => 2,
            0x8c => 4,
            0x8d => 4,
            0x8e => 4,
            0x90 => 2,
            0x91 => 6,
            0x94 => 4,
            0x95 => 4,
            0x96 => 4,
            0x98 => 2,
            0x99 => 5,
            0x9a => 2,
            0x9d => 5,
            0xa0 => 2,
            0xa1 => 6,
            0xa2 => 2,
            0xa4 => 3,
            0xa5 => 3,
            0xa6 => 3,
            0xa8 => 2,
            0xa9 => 2,
            0xaa => 2,
            0xac => 4,
            0xad => 4,
            0xae => 4,
            0xb0 => 2,
            0xb1 => 5,
            0xb4 => 4,
            0xb5 => 4,
            0xb6 => 4,
            0xb8 => 2,
            0xb9 => 4,
            0xba => 2,
            0xbc => 4,
            0xbd => 4,
            0xbe => 4,
            0xc0 => 2,
            0xc1 => 6,
            0xc4 => 3,
            0xc5 => 3,
            0xc6 => 5,
            0xc8 => 2,
            0xc9 => 2,
            0xca => 2,
            0xcc => 4,
            0xcd => 4,
            0xce => 6,
            0xd0 => 2,
            0xd1 => 5,
            0xd5 => 4,
            0xd6 => 6,
            0xd8 => 2,
            0xd9 => 4,
            0xdd => 4,
            0xde => 7,
            0xe0 => 2,
            0xe1 => 6,
            0xe4 => 3,
            0xe5 => 3,
            0xe6 => 5,
            0xe8 => 2,
            0xe9 => 2,
            0xea => 2,
            0xec => 4,
            0xed => 4,
            0xee => 6,
            0xf0 => 2,
            0xf1 => 5,
            0xf5 => 4,
            0xf6 => 6,
            0xf8 => 2,
            0xf9 => 4,
            0xfd => 4,
            0xfe => 7,
            _ => 0,
        }
}

/// Reads a little-endian operand word at the program counter, advancing it by two.
fn fetch_operand_word<M: MemoryController, T: Fn()>(cpu: &mut Cpu6510<M>, tick_fn: &T) -> (w: u16)
    requires
        call_requires(*tick_fn, ()),
    ensures
        w == word(old(cpu).load(old(cpu).regs().pc), old(cpu).load(add16(old(cpu).regs().pc, 1))),
        final(cpu).regs() == (Registers { pc: add16(old(cpu).regs().pc, 2), ..old(cpu).regs() }),
        old(cpu).same_devices(*final(cpu)),
        final(cpu).ticks() == old(cpu).ticks() + 2,
{
    let low = cpu.fetch_byte(tick_fn);
    let high = cpu.fetch_byte(tick_fn);
    proof {
        lemma_word(low, high);
    }
    ((high as u16) << 8) | low as u16
}

impl Instruction {
    /// The instruction's operand, for the mnemonics that take one.
    pub open spec fn operand(self) -> Option<Operand> {
        match self {
            Instruction::LDA(op, _) | Instruction::LDX(op, _) | Instruction::LDY(op, _)
            | Instruction::STA(op, _) | Instruction::STX(op, _) | Instruction::STY(op, _)
            | Instruction::ADC(op, _) | Instruction::SBC(op, _) | Instruction::CMP(op, _)
            | Instruction::CPX(op, _) | Instruction::CPY(op, _) | Instruction::DEC(op, _)
            | Instruction::INC(op, _) | Instruction::AND(op, _) | Instruction::EOR(op, _)
            | Instruction::ORA(op, _) | Instruction::ASL(op, _) | Instruction::LSR(op, _)
            | Instruction::ROL(op, _) | Instruction::ROR(op, _) | Instruction::BCC(op, _)
            | Instruction::BCS(op, _) | Instruction::BEQ(op, _) | Instruction::BMI(op, _)
            | Instruction::BNE(op, _) | Instruction::BPL(op, _) | Instruction::BVC(op, _)
            | Instruction::BVS(op, _) | Instruction::JMP(op, _) | Instruction::JSR(op, _)
            | Instruction::BIT(op, _) => Some(op),
            _ => None,
        }
    }

    /// The cycle count the instruction carries.
    pub open spec fn cycles(self) -> u8 {
        match self {
            Instruction::LDA(_, c) | Instruction::LDX(_, c) | Instruction::LDY(_, c)
            | Instruction::STA(_, c) | Instruction::STX(_, c) | Instruction::STY(_, c)
            | Instruction::ADC(_, c) | Instruction::SBC(_, c) | Instruction::CMP(_, c)
            | Instruction::CPX(_, c) | Instruction::CPY(_, c) | Instruction::DEC(_, c)
            | Instruction::INC(_, c) | Instruction::AND(_, c) | Instruction::EOR(_, c)
            | Instruction::ORA(_, c) | Instruction::ASL(_, c) | Instruction::LSR(_, c)
            | Instruction::ROL(_, c) | Instruction::ROR(_, c) | Instruction::BCC(_, c)
            | Instruction::BCS(_, c) | Instruction::BEQ(_, c) | Instruction::BMI(_, c)
            | Instruction::BNE(_, c) | Instruction::BPL(_, c) | Instruction::BVC(_, c)
            | Instruction::BVS(_, c) | Instruction::JMP(_, c) | Instruction::JSR(_, c)
            | Instruction::BIT(_, c) => c,
            Instruction::PHA(c) | Instruction::PHP(c) | Instruction::PLA(c) | Instruction::PLP(c)
            | Instruction::TAX(c) | Instruction::TAY(c) | Instruction::TSX(c) | Instruction::TXA(c)
            | Instruction::TXS(c) | Instruction::TYA(c) | Instruction::DEX(c) | Instruction::DEY(c)
            | Instruction::INX(c) | Instruction::INY(c) | Instruction::RTS(c) | Instruction::BRK(c)
            | Instruction::CLC(c) | Instruction::CLD(c) | Instruction::CLI(c) | Instruction::CLV(c)
            | Instruction::NOP(c) | Instruction::SEC(c) | Instruction::SED(c) | Instruction::SEI(c)
            | Instruction::RTI(c) => c,
        }
    }

    /// The opcode that encodes the instruction's mnemonic and addressing
    /// mode, or `None` when the 6510 has no (documented) such instruction.
    pub open spec fn encoding(self) -> Option<u8> {
        match self {
            Instruction::ADC(op, _) => match op {
                Operand::Immediate(_) => Some(0x69),
                Operand::ZeroPage(_) => Some(0x65),
                Operand::ZeroPageX(_) => Some(0x75),
                Operand::Absolute(_) => Some(0x6d),
                Operand::AbsoluteX(_) => Some(0x7d),
                Operand::AbsoluteY(_) => Some(0x79),
                Operand::IndirectX(_) => Some(0x61),
                Operand::IndirectY(_) => Some(0x71),
                _ => None,
            },
            Instruction::AND(op, _) => match op {
                Operand::Immediate(_) => Some(0x29),
                Operand::ZeroPage(_) => Some(0x25),
                Operand::ZeroPageX(_) => Some(0x35),
                Operand::Absolute(_) => Some(0x2d),
                Operand::AbsoluteX(_) => Some(0x3d),
                Operand::AbsoluteY(_) => Some(0x39),
                Operand::IndirectX(_) => Some(0x21),
                Operand::IndirectY(_) => Some(0x31),
                _ => None,
            },
            Instruction::ASL(op, _) => match op {
                Operand::Accumulator => Some(0x0a),
                Operand::ZeroPage(_) => Some(0x06),
                Operand::ZeroPageX(_) => Some(0x16),
                Operand::Absolute(_) => Some(0x0e),
                Operand::AbsoluteX(_) => Some(0x1e),
                _ => None,
            },
            Instruction::BCC(op, _) => match op {
                Operand::Relative(_) => Some(0x90),
                _ => None,
            },
            Instruction::BCS(op, _) => match op {
                Operand::Relative(_) => Some(0xb0),
                _ => None,
            },
            Instruction::BEQ(op, _) => match op {
                Operand::Relative(_) => Some(0xf0),
                _ => None,
            },
            Instruction::BMI(op, _) => match op {
                Operand::Relative(_) => Some(0x30),
                _ => None,
            },
            Instruction::BNE(op, _) => match op {
                Operand::Relative(_) => Some(0xd0),
                _ => None,
            },
            Instruction::BPL(op, _) => match op {
                Operand::Relative(_) => Some(0x10),
                _ => None,
            },
            Instruction::BVC(op, _) => match op {
                Operand::Relative(_) => Some(0x50),
                _ => None,
            },
            Instruction::BVS(op, _) => match op {
                Operand::Relative(_) => Some(0x70),
                _ => None,
            },
            Instruction::BIT(op, _) => match op {
                Operand::ZeroPage(_) => Some(0x24),
                Operand::Absolute(_) => Some(0x2c),
                _ => None,
            },
            Instruction::BRK(_) => Some(0x00),
            Instruction::CLC(_) => Some(0x18),
            Instruction::CLD(_) => Some(0xd8),
            Instruction::CLI(_) => Some(0x58),
            Instruction::CLV(_) => Some(0xb8),
            Instruction::CMP(op, _) => match op {
                Operand::Immediate(_) => Some(0xc9),
                Operand::ZeroPage(_) => Some(0xc5),
                Operand::ZeroPageX(_) => Some(0xd5),
                Operand::Absolute(_) => Some(0xcd),
                Operand::AbsoluteX(_) => Some(0xdd),
                Operand::AbsoluteY(_) => Some(0xd9),
                Operand::IndirectX(_) => Some(0xc1),
                Operand::IndirectY(_) => Some(0xd1),
                _ => None,
            },
            Instruction::CPX(op, _) => match op {
                Operand::Immediate(_) => Some(0xe0),
                Operand::ZeroPage(_) => Some(0xe4),
                Operand::Absolute(_) => Some(0xec),
                _ => None,
            },
            Instruction::CPY(op, _) => match op {
                Operand::Immediate(_) => Some(0xc0),
                Operand::ZeroPage(_) => Some(0xc4),
                Operand::Absolute(_) => Some(0xcc),
                _ => None,
            },
            Instruction::DEC(op, _) => match op {
                Operand::ZeroPage(_) => Some(0xc6),
                Operand::ZeroPageX(_) => Some(0xd6),
                Operand::Absolute(_) => Some(0xce),
                Operand::AbsoluteX(_) => Some(0xde),
                _ => None,
            },
            Instruction::DEX(_) => Some(0xca),
            Instruction::DEY(_) => Some(0x88),
            Instruction::EOR(op, _) => match op {
                Operand::Immediate(_) => Some(0x49),
                Operand::ZeroPage(_) => Some(0x45),
                Operand::ZeroPageX(_) => Some(0x55),
                Operand::Absolute(_) => Some(0x4d),
                Operand::AbsoluteX(_) => Some(0x5d),
                Operand::AbsoluteY(_) => Some(0x59),
                Operand::IndirectX(_) => Some(0x41),
                Operand::IndirectY(_) => Some(0x51),
                _ => None,
            },
            Instruction::INC(op, _) => match op {
                Operand::ZeroPage(_) => Some(0xe6),
                Operand::ZeroPageX(_) => Some(0xf6),
                Operand::Absolute(_) => Some(0xee),
                Operand::AbsoluteX(_) => Some(0xfe),
                _ => None,
            },
            Instruction::INX(_) => Some(0xe8),
            Instruction::INY(_) => Some(0xc8),
            Instruction::JMP(op, _) => match op {
                Operand::Absolute(_) => Some(0x4c),
                Operand::Indirect(_) => Some(0x6c),
                _ => None,
            },
            Instruction::JSR(op, _) => match op {
                Operand::Absolute(_) => Some(0x20),
                _ => None,
            },
            Instruction::LDA(op, _) => match op {
                Operand::Immediate(_) => Some(0xa9),
                Operand::ZeroPage(_) => Some(0xa5),
                Operand::ZeroPageX(_) => Some(0xb5),
                Operand::Absolute(_) => Some(0xad),
                Operand::AbsoluteX(_) => Some(0xbd),
                Operand::AbsoluteY(_) => Some(0xb9),
                Operand::IndirectX(_) => Some(0xa1),
                Operand::IndirectY(_) => Some(0xb1),
                _ => None,
            },
            Instruction::LDX(op, _) => match op {
                Operand::Immediate(_) => Some(0xa2),
                Operand::ZeroPage(_) => Some(0xa6),
                Operand::ZeroPageY(_) => Some(0xb6),
                Operand::Absolute(_) => Some(0xae),
                Operand::AbsoluteY(_) => Some(0xbe),
                _ => None,
            },
            Instruction::LDY(op, _) => match op {
                Operand::Immediate(_) => Some(0xa0),
                Operand::ZeroPage(_) => Some(0xa4),
                Operand::ZeroPageX(_) => Some(0xb4),
                Operand::Absolute(_) => Some(0xac),
                Operand::AbsoluteX(_) => Some(0xbc),
                _ => None,
            },
            Instruction::LSR(op, _) => match op {
                Operand::Accumulator => Some(0x4a),
                Operand::ZeroPage(_) => Some(0x46),
                Operand::ZeroPageX(_) => Some(0x56),
                Operand::Absolute(_) => Some(0x4e),
                Operand::AbsoluteX(_) => Some(0x5e),
                _ => None,
            },
            Instruction::NOP(_) => Some(0xea),
            Instruction::ORA(op, _) => match op {
                Operand::Immediate(_) => Some(0x09),
                Operand::ZeroPage(_) => Some(0x05),
                Operand::ZeroPageX(_) => Some(0x15),
                Operand::Absolute(_) => Some(0x0d),
                Operand::AbsoluteX(_) => Some(0x1d),
                Operand::AbsoluteY(_) => Some(0x19),
                Operand::IndirectX(_) => Some(0x01),
                Operand::IndirectY(_) => Some(0x11),
                _ => None,
            },
            Instruction::PHA(_) => Some(0x48),
            Instruction::PHP(_) => Some(0x08),
            Instruction::PLA(_) => Some(0x68),
            Instruction::PLP(_) => Some(0x28),
            Instruction::ROL(op, _) => match op {
                Operand::Accumulator => Some(0x2a),
                Operand::ZeroPage(_) => Some(0x26),
                Operand::ZeroPageX(_) => Some(0x36),
                Operand::Absolute(_) => Some(0x2e),
                Operand::AbsoluteX(_) => Some(0x3e),
                _ => None,
            },
            Instruction::ROR(op, _) => match op {
                Operand::Accumulator => Some(0x6a),
                Operand::ZeroPage(_) => Some(0x66),
                Operand::ZeroPageX(_) => Some(0x76),
                Operand::Absolute(_) => Some(0x6e),
                Operand::AbsoluteX(_) => Some(0x7e),
                _ => None,
            },
            Instruction::RTI(_) => Some(0x40),
            Instruction::RTS(_) => Some(0x60),
            Instruction::SBC(op, _) => match op {
                Operand::Immediate(_) => Some(0xe9),
                Operand::ZeroPage(_) => Some(0xe5),
                Operand::ZeroPageX(_) => Some(0xf5),
                Operand::Absolute(_) => Some(0xed),
                Operand::AbsoluteX(_) => Some(0xfd),
                Operand::AbsoluteY(_) => Some(0xf9),
                Operand::IndirectX(_) => Some(0xe1),
                Operand::IndirectY(_) => Some(0xf1),
                _ => None,
            },
            Instruction::SEC(_) => Some(0x38),
            Instruction::SED(_) => Some(0xf8),
            Instruction::SEI(_) => Some(0x78),
            Instruction::STA(op, _) => match op {
                Operand::ZeroPage(_) => Some(0x85),
                Operand::ZeroPageX(_) => Some(0x95),
                Operand::Absolute(_) => Some(0x8d),
                Operand::AbsoluteX(_) => Some(0x9d),
                Operand::AbsoluteY(_) => Some(0x99),
                Operand::IndirectX(_) => Some(0x81),
                Operand::IndirectY(_) => Some(0x91),
                _ => None,
            },
            Instruction::STX(op, _) => match op {
                Operand::ZeroPage(_) => Some(0x86),
                Operand::ZeroPageY(_) => Some(0x96),
                Operand::Absolute(_) => Some(0x8e),
                _ => None,
            },
            Instruction::STY(op, _) => match op {
                Operand::ZeroPage(_) => Some(0x84),
                Operand::ZeroPageX(_) => Some(0x94),
                Operand::Absolute(_) => Some(0x8c),
                _ => None,
            },
            Instruction::TAX(_) => Some(0xaa),
            Instruction::TAY(_) => Some(0xa8),
            Instruction::TSX(_) => Some(0xba),
            Instruction::TXA(_) => Some(0x8a),
            Instruction::TXS(_) => Some(0x9a),
            Instruction::TYA(_) => Some(0x98),
        }
    }

    /// The number of operand bytes that follow the opcode.
    pub open spec fn operand_len(self) -> int {
        match self.operand() {
            Some(Operand::Accumulator) | None => 0,
            Some(Operand::Absolute(_)) | Some(Operand::AbsoluteX(_)) | Some(Operand::AbsoluteY(_))
            | Some(Operand::Indirect(_)) => 2,
            _ => 1,
        }
    }

    /// The operand holds the bytes that `cpu` reads starting at `pc`.
    pub open spec fn operand_fetched<M: MemoryController>(self, cpu: Cpu6510<M>, pc: u16) -> bool {
        match self.operand() {
            Some(Operand::Immediate(v)) | Some(Operand::ZeroPage(v)) | Some(Operand::ZeroPageX(v))
            | Some(Operand::ZeroPageY(v)) | Some(Operand::IndirectX(v)) | Some(Operand::IndirectY(v)) => v
                == cpu.load(pc),
            Some(Operand::Absolute(w)) | Some(Operand::AbsoluteX(w)) | Some(Operand::AbsoluteY(w))
            | Some(Operand::Indirect(w)) => w == word(cpu.load(pc), cpu.load(add16(pc, 1))),
            Some(Operand::Relative(offset)) => offset == cpu.load(pc) as i8,
            _ => true,
        }
    }

    /// Decodes the instruction of `opcode`, fetching its operand bytes at the
    /// program counter. Returns `None` for an opcode that encodes no
    /// documented instruction, having fetched nothing.
    pub fn decode<M: MemoryController, T: Fn()>(cpu: &mut Cpu6510<M>, opcode: u8, tick_fn: &T) -> (r: Option<Instruction>)
        requires
            call_requires(*tick_fn, ()),
        ensures
            old(cpu).same_devices(*final(cpu)),
            match r {
                Some(i) => {
                    &&& i.encoding() == Some(opcode)
                    &&& i.cycles() == base_cycles(opcode)
                    &&& i.valid()
                    &&& i.operand_fetched(*old(cpu), old(cpu).regs().pc)
                    &&& final(cpu).regs() == (Registers { pc: add16(old(cpu).regs().pc, i.operand_len()), ..old(cpu).regs() })
                    &&& final(cpu).ticks() == old(cpu).ticks() + i.operand_len()
                },
                None => {
                    &&& forall|i: Instruction| #[trigger] i.encoding() != Some(opcode)
                    &&& final(cpu).regs() == old(cpu).regs()
                    &&& final(cpu).ticks() == old(cpu).ticks()
                },
            },
    {
        match opcode {
            0x00 => Some(Instruction::BRK(7)),
            0x01 => Some(Instruction::ORA(Operand::IndirectX(cpu.fetch_byte(tick_fn)), 6)),
            0x05 => Some(Instruction::ORA(Operand::ZeroPage(cpu.fetch_byte(tick_fn)), 3)),
            0x06 => Some(Instruction::ASL(Operand::ZeroPage(cpu.fetch_byte(tick_fn)), 5)),
            0x08 => Some(Instruction::PHP(3)),
            0x09 => Some(Instruction::ORA(Operand::Immediate(cpu.fetch_byte(tick_fn)), 2)),
            0x0a => Some(Instruction::ASL(Operand::Accumulator, 2)),
            0x0d => Some(Instruction::ORA(Operand::Absolute(fetch_operand_word(cpu, tick_fn)), 4)),
            0x0e => Some(Instruction::ASL(Operand::Absolute(fetch_operand_word(cpu, tick_fn)), 6)),
            0x10 => Some(Instruction::BPL(Operand::Relative(cpu.fetch_byte(tick_fn) as i8), 2)),
            0x11 => Some(Instruction::ORA(Operand::IndirectY(cpu.fetch_byte(tick_fn)), 5)),
            0x15 => Some(Instruction::ORA(Operand::ZeroPageX(cpu.fetch_byte(tick_fn)), 4)),
            0x16 => Some(Instruction::ASL(Operand::ZeroPageX(cpu.fetch_byte(tick_fn)), 6)),
            0x18 => Some(Instruction::CLC(2)),
            0x19 => Some(Instruction::ORA(Operand::AbsoluteY(fetch_operand_word(cpu, tick_fn)), 4)),
            0x1d => Some(Instruction::ORA(Operand::AbsoluteX(fetch_operand_word(cpu, tick_fn)), 4)),
            0x1e => Some(Instruction::ASL(Operand::AbsoluteX(fetch_operand_word(cpu, tick_fn)), 7)),
            0x20 => Some(Instruction::JSR(Operand::Absolute(fetch_operand_word(cpu, tick_fn)), 6)),
            0x21 => Some(Instruction::AND(Operand::IndirectX(cpu.fetch_byte(tick_fn)), 6)),
            0x24 => Some(Instruction::BIT(Operand::ZeroPage(cpu.fetch_byte(tick_fn)), 3)),
            0x25 => Some(Instruction::AND(Operand::ZeroPage(cpu.fetch_byte(tick_fn)), 3)),
            0x26 => Some(Instruction::ROL(Operand::ZeroPage(cpu.fetch_byte(tick_fn)), 5)),
            0x28 => Some(Instruction::PLP(4)),
            0x29 => Some(Instruction::AND(Operand::Immediate(cpu.fetch_byte(tick_fn)), 2)),
            0x2a => Some(Instruction::ROL(Operand::Accumulator, 2)),
            0x2c => Some(Instruction::BIT(Operand::Absolute(fetch_operand_word(cpu, tick_fn)), 4)),
            0x2d => Some(Instruction::AND(Operand::Absolute(fetch_operand_word(cpu, tick_fn)), 4)),
            0x2e => Some(Instruction::ROL(Operand::Absolute(fetch_operand_word(cpu, tick_fn)), 6)),
            0x30 => Some(Instruction::BMI(Operand::Relative(cpu.fetch_byte(tick_fn) as i8), 2)),
            0x31 => Some(Instruction::AND(Operand::IndirectY(cpu.fetch_byte(tick_fn)), 5)),
            0x35 => Some(Instruction::AND(Operand::ZeroPageX(cpu.fetch_byte(tick_fn)), 4)),
            0x36 => Some(Instruction::ROL(Operand::ZeroPageX(cpu.fetch_byte(tick_fn)), 6)),
            0x38 => Some(Instruction::SEC(2)),
            0x39 => Some(Instruction::AND(Operand::AbsoluteY(fetch_operand_word(cpu, tick_fn)), 4)),
            0x3d => Some(Instruction::AND(Operand::AbsoluteX(fetch_operand_word(cpu, tick_fn)), 4)),
            0x3e => Some(Instruction::ROL(Operand::AbsoluteX(fetch_operand_word(cpu, tick_fn)), 7)),
            0x40 => Some(Instruction::RTI(6)),
            0x41 => Some(Instruction::EOR(Operand::IndirectX(cpu.fetch_byte(tick_fn)), 6)),
            0x45 => Some(Instruction::EOR(Operand::ZeroPage(cpu.fetch_byte(tick_fn)), 3)),
            0x46 => Some(Instruction::LSR(Operand::ZeroPage(cpu.fetch_byte(tick_fn)), 5)),
            0x48 => Some(Instruction::PHA(3)),
            0x49 => Some(Instruction::EOR(Operand::Immediate(cpu.fetch_byte(tick_fn)), 2)),
            0x4a => Some(Instruction::LSR(Operand::Accumulator, 2)),
            0x4c => Some(Instruction::JMP(Operand::Absolute(fetch_operand_word(cpu, tick_fn)), 3)),
            0x4d => Some(Instruction::EOR(Operand::Absolute(fetch_operand_word(cpu, tick_fn)), 4)),
            0x4e => Some(Instruction::LSR(Operand::Absolute(fetch_operand_word(cpu, tick_fn)), 6)),
            0x50 => Some(Instruction::BVC(Operand::Relative(cpu.fetch_byte(tick_fn) as i8), 2)),
            0x51 => Some(Instruction::EOR(Operand::IndirectY(cpu.fetch_byte(tick_fn)), 5)),
            0x55 => Some(Instruction::EOR(Operand::ZeroPageX(cpu.fetch_byte(tick_fn)), 4)),
            0x56 => Some(Instruction::LSR(Operand::ZeroPageX(cpu.fetch_byte(tick_fn)), 6)),
            0x58 => Some(Instruction::CLI(2)),
            0x59 => Some(Instruction::EOR(Operand::AbsoluteY(fetch_operand_word(cpu, tick_fn)), 4)),
            0x5d => Some(Instruction::EOR(Operand::AbsoluteX(fetch_operand_word(cpu, tick_fn)), 4)),
            0x5e => Some(Instruction::LSR(Operand::AbsoluteX(fetch_operand_word(cpu, tick_fn)), 7)),
            0x60 => Some(Instruction::RTS(6)),
            0x61 => Some(Instruction::ADC(Operand::IndirectX(cpu.fetch_byte(tick_fn)), 6)),
            0x65 => Some(Instruction::ADC(Operand::ZeroPage(cpu.fetch_byte(tick_fn)), 3)),
            0x66 => Some(Instruction::ROR(Operand::ZeroPage(cpu.fetch_byte(tick_fn)), 5)),
            0x68 => Some(Instruction::PLA(4)),
            0x69 => Some(Instruction::ADC(Operand::Immediate(cpu.fetch_byte(tick_fn)), 2)),
            0x6a => Some(Instruction::ROR(Operand::Accumulator, 2)),
            0x6c => Some(Instruction::JMP(Operand::Indirect(fetch_operand_word(cpu, tick_fn)), 5)),
            0x6d => Some(Instruction::ADC(Operand::Absolute(fetch_operand_word(cpu, tick_fn)), 4)),
            0x6e => Some(Instruction::ROR(Operand::Absolute(fetch_operand_word(cpu, tick_fn)), 6)),
            0x70 => Some(Instruction::BVS(Operand::Relative(cpu.fetch_byte(tick_fn) as i8), 2)),
            0x71 => Some(Instruction::ADC(Operand::IndirectY(cpu.fetch_byte(tick_fn)), 5)),
            0x75 => Some(Instruction::ADC(Operand::ZeroPageX(cpu.fetch_byte(tick_fn)), 4)),
            0x76 => Some(Instruction::ROR(Operand::ZeroPageX(cpu.fetch_byte(tick_fn)), 6)),
            0x78 => Some(Instruction::SEI(2)),
            0x79 => Some(Instruction::ADC(Operand::AbsoluteY(fetch_operand_word(cpu, tick_fn)), 4)),
            0x7d => Some(Instruction::ADC(Operand::AbsoluteX(fetch_operand_word(cpu, tick_fn)), 4)),
            0x7e => Some(Instruction::ROR(Operand::AbsoluteX(fetch_operand_word(cpu, tick_fn)), 7)),
            0x81 => Some(Instruction::STA(Operand::IndirectX(cpu.fetch_byte(tick_fn)), 6)),
            0x84 => Some(Instruction::STY(Operand::ZeroPage(cpu.fetch_byte(tick_fn)), 3)),
            0x85 => Some(Instruction::STA(Operand::ZeroPage(cpu.fetch_byte(tick_fn)), 3)),
            0x86 => Some(Instruction::STX(Operand::ZeroPage(cpu.fetch_byte(tick_fn)), 3)),
            0x88 => Some(Instruction::DEY(2)),
            0x8a => Some(Instruction::TXA(2)),
            0x8c => Some(Instruction::STY(Operand::Absolute(fetch_operand_word(cpu, tick_fn)), 4)),
            0x8d => Some(Instruction::STA(Operand::Absolute(fetch_operand_word(cpu, tick_fn)), 4)),
            0x8e => Some(Instruction::STX(Operand::Absolute(fetch_operand_word(cpu, tick_fn)), 4)),
            0x90 => Some(Instruction::BCC(Operand::Relative(cpu.fetch_byte(tick_fn) as i8), 2)),
            0x91 => Some(Instruction::STA(Operand::IndirectY(cpu.fetch_byte(tick_fn)), 6)),
            0x94 => Some(Instruction::STY(Operand::ZeroPageX(cpu.fetch_byte(tick_fn)), 4)),
            0x95 => Some(Instruction::STA(Operand::ZeroPageX(cpu.fetch_byte(tick_fn)), 4)),
            0x96 => Some(Instruction::STX(Operand::ZeroPageY(cpu.fetch_byte(tick_fn)), 4)),
            0x98 => Some(Instruction::TYA(2)),
            0x99 => Some(Instruction::STA(Operand::AbsoluteY(fetch_operand_word(cpu, tick_fn)), 5)),
            0x9a => Some(Instruction::TXS(2)),
            0x9d => Some(Instruction::STA(Operand::AbsoluteX(fetch_operand_word(cpu, tick_fn)), 5)),
            0xa0 => Some(Instruction::LDY(Operand::Immediate(cpu.fetch_byte(tick_fn)), 2)),
            0xa1 => Some(Instruction::LDA(Operand::IndirectX(cpu.fetch_byte(tick_fn)), 6)),
            0xa2 => Some(Instruction::LDX(Operand::Immediate(cpu.fetch_byte(tick_fn)), 2)),
            0xa4 => Some(Instruction::LDY(Operand::ZeroPage(cpu.fetch_byte(tick_fn)), 3)),
            0xa5 => Some(Instruction::LDA(Operand::ZeroPage(cpu.fetch_byte(tick_fn)), 3)),
            0xa6 => Some(Instruction::LDX(Operand::ZeroPage(cpu.fetch_byte(tick_fn)), 3)),
            0xa8 => Some(Instruction::TAY(2)),
            0xa9 => Some(Instruction::LDA(Operand::Immediate(cpu.fetch_byte(tick_fn)), 2)),
            0xaa => Some(Instruction::TAX(2)),
            0xac => Some(Instruction::LDY(Operand::Absolute(fetch_operand_word(cpu, tick_fn)), 4)),
            0xad => Some(Instruction::LDA(Operand::Absolute(fetch_operand_word(cpu, tick_fn)), 4)),
            0xae => Some(Instruction::LDX(Operand::Absolute(fetch_operand_word(cpu, tick_fn)), 4)),
            0xb0 => Some(Instruction::BCS(Operand::Relative(cpu.fetch_byte(tick_fn) as i8), 2)),
            0xb1 => Some(Instruction::LDA(Operand::IndirectY(cpu.fetch_byte(tick_fn)), 5)),
            0xb4 => Some(Instruction::LDY(Operand::ZeroPageX(cpu.fetch_byte(tick_fn)), 4)),
            0xb5 => Some(Instruction::LDA(Operand::ZeroPageX(cpu.fetch_byte(tick_fn)), 4)),
            0xb6 => Some(Instruction::LDX(Operand::ZeroPageY(cpu.fetch_byte(tick_fn)), 4)),
            0xb8 => Some(Instruction::CLV(2)),
            0xb9 => Some(Instruction::LDA(Operand::AbsoluteY(fetch_operand_word(cpu, tick_fn)), 4)),
            0xba => Some(Instruction::TSX(2)),
            0xbc => Some(Instruction::LDY(Operand::AbsoluteX(fetch_operand_word(cpu, tick_fn)), 4)),
            0xbd => Some(Instruction::LDA(Operand::AbsoluteX(fetch_operand_word(cpu, tick_fn)), 4)),
            0xbe => Some(Instruction::LDX(Operand::AbsoluteY(fetch_operand_word(cpu, tick_fn)), 4)),
            0xc0 => Some(Instruction::CPY(Operand::Immediate(cpu.fetch_byte(tick_fn)), 2)),
            0xc1 => Some(Instruction::CMP(Operand::IndirectX(cpu.fetch_byte(tick_fn)), 6)),
            0xc4 => Some(Instruction::CPY(Operand::ZeroPage(cpu.fetch_byte(tick_fn)), 3)),
            0xc5 => Some(Instruction::CMP(Operand::ZeroPage(cpu.fetch_byte(tick_fn)), 3)),
            0xc6 => Some(Instruction::DEC(Operand::ZeroPage(cpu.fetch_byte(tick_fn)), 5)),
            0xc8 => Some(Instruction::INY(2)),
            0xc9 => Some(Instruction::CMP(Operand::Immediate(cpu.fetch_byte(tick_fn)), 2)),
            0xca => Some(Instruction::DEX(2)),
            0xcc => Some(Instruction::CPY(Operand::Absolute(fetch_operand_word(cpu, tick_fn)), 4)),
            0xcd => Some(Instruction::CMP(Operand::Absolute(fetch_operand_word(cpu, tick_fn)), 4)),
            0xce => Some(Instruction::DEC(Operand::Absolute(fetch_operand_word(cpu, tick_fn)), 6)),
            0xd0 => Some(Instruction::BNE(Operand::Relative(cpu.fetch_byte(tick_fn) as i8), 2)),
            0xd1 => Some(Instruction::CMP(Operand::IndirectY(cpu.fetch_byte(tick_fn)), 5)),
            0xd5 => Some(Instruction::CMP(Operand::ZeroPageX(cpu.fetch_byte(tick_fn)), 4)),
            0xd6 => Some(Instruction::DEC(Operand::ZeroPageX(cpu.fetch_byte(tick_fn)), 6)),
            0xd8 => Some(Instruction::CLD(2)),
            0xd9 => Some(Instruction::CMP(Operand::AbsoluteY(fetch_operand_word(cpu, tick_fn)), 4)),
            0xdd => Some(Instruction::CMP(Operand::AbsoluteX(fetch_operand_word(cpu, tick_fn)), 4)),
            0xde => Some(Instruction::DEC(Operand::AbsoluteX(fetch_operand_word(cpu, tick_fn)), 7)),
            0xe0 => Some(Instruction::CPX(Operand::Immediate(cpu.fetch_byte(tick_fn)), 2)),
            0xe1 => Some(Instruction::SBC(Operand::IndirectX(cpu.fetch_byte(tick_fn)), 6)),
            0xe4 => Some(Instruction::CPX(Operand::ZeroPage(cpu.fetch_byte(tick_fn)), 3)),
            0xe5 => Some(Instruction::SBC(Operand::ZeroPage(cpu.fetch_byte(tick_fn)), 3)),
            0xe6 => Some(Instruction::INC(Operand::ZeroPage(cpu.fetch_byte(tick_fn)), 5)),
            0xe8 => Some(Instruction::INX(2)),
            0xe9 => Some(Instruction::SBC(Operand::Immediate(cpu.fetch_byte(tick_fn)), 2)),
            0xea => Some(Instruction::NOP(2)),
            0xec => Some(Instruction::CPX(Operand::Absolute(fetch_operand_word(cpu, tick_fn)), 4)),
            0xed => Some(Instruction::SBC(Operand::Absolute(fetch_operand_word(cpu, tick_fn)), 4)),
            0xee => Some(Instruction::INC(Operand::Absolute(fetch_operand_word(cpu, tick_fn)), 6)),
            0xf0 => Some(Instruction::BEQ(Operand::Relative(cpu.fetch_byte(tick_fn) as i8), 2)),
            0xf1 => Some(Instruction::SBC(Operand::IndirectY(cpu.fetch_byte(tick_fn)), 5)),
            0xf5 => Some(Instruction::SBC(Operand::ZeroPageX(cpu.fetch_byte(tick_fn)), 4)),
            0xf6 => Some(Instruction::INC(Operand::ZeroPageX(cpu.fetch_byte(tick_fn)), 6)),
            0xf8 => Some(Instruction::SED(2)),
            0xf9 => Some(Instruction::SBC(Operand::AbsoluteY(fetch_operand_word(cpu, tick_fn)), 4)),
            0xfd => Some(Instruction::SBC(Operand::AbsoluteX(fetch_operand_word(cpu, tick_fn)), 4)),
            0xfe => Some(Instruction::INC(Operand::AbsoluteX(fetch_operand_word(cpu, tick_fn)), 7)),
            _ => None,
        }
    }
}

} // verus!
