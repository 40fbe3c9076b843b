use vstd::prelude::*;

use crate::alu::{adc, sbc, compare, carry_in, bcd_add, bcd_sub, sign, rol, ror, add8, add16, hi, lo, sbc_difference};
use crate::cpu::{Cpu6510, Registers, Interrupt, stack_address, port_after, stored_writes, writes_to_ram, word};
use crate::instruction::{Instruction, base_cycles};
use crate::memory::{MemoryController, mem_after};
use crate::operand::Operand;
use crate::flags::{
    Flag,
    flag_set,
    with_flag,
    with_nz,
    lemma_flag_update,
    lemma_nz_update,
    CARRY,
    ZERO,
    INT_DISABLE,
    DECIMAL,
    BREAK,
    RESERVED,
    OVERFLOW,
    NEGATIVE,
};

verus! {

/// The two's-complement value of a byte.
pub open spec fn signed(v: u8) -> int {
    if v >= 0x80 {
        v as int - 256
    } else {
        v as int
    }
}

/// Whether both nibbles of `v` are decimal digits.
pub open spec fn bcd_valid(v: u8) -> bool {
    v % 16 <= 9 && v / 16 <= 9
}

/// The number (0 to 99) that a packed-BCD byte stands for.
pub open spec fn bcd_value(v: u8) -> int {
    (v / 16) as int * 10 + (v % 16) as int
}

/// The flags that an arithmetic result leaves alone: I, D, B and the reserved bit.
pub open spec fn keeps_mode_flags(before: u8, after: u8) -> bool {
    &&& flag_set(after, INT_DISABLE) == flag_set(before, INT_DISABLE)
    &&& flag_set(after, DECIMAL) == flag_set(before, DECIMAL)
    &&& flag_set(after, BREAK) == flag_set(before, BREAK)
    &&& flag_set(after, RESERVED) == flag_set(before, RESERVED)
}

proof fn lemma_arith_flags(p: u8, v: bool, c: bool, result: u8)
    ensures
        ({
            let q = with_nz(with_flag(with_flag(p, OVERFLOW, v), CARRY, c), result);
            &&& flag_set(q, OVERFLOW) == v
            &&& flag_set(q, CARRY) == c
            &&& flag_set(q, NEGATIVE) == (result >= 0x80)
            &&& flag_set(q, ZERO) == (result == 0)
            &&& keeps_mode_flags(p, q)
        }),
{
    let p1 = with_flag(p, OVERFLOW, v);
    let p2 = with_flag(p1, CARRY, c);
    lemma_flag_update(p, OVERFLOW, v);
    lemma_flag_update(p1, CARRY, c);
    lemma_nz_update(p2, result);
}

/// In binary mode ADC adds: the result is `a + m + C` modulo 256, the carry
/// says the sum exceeds 255, V says the signed sum leaves -128..=127, N and Z
/// follow the result, and I, D, B keep their values.
pub proof fn law_adc_binary(a: u8, m: u8, p: u8)
    requires
        !flag_set(p, DECIMAL),
    ensures
        ({
            let (result, q) = adc(a, m, p);
            let sum = a as int + m as int + carry_in(p);
            &&& result as int == sum % 256
            &&& flag_set(q, CARRY) == (sum > 255)
            &&& flag_set(q, OVERFLOW) == !(-128 <= signed(a) + signed(m) + carry_in(p) <= 127)
            &&& flag_set(q, NEGATIVE) == (result >= 0x80)
            &&& flag_set(q, ZERO) == (result == 0)
            &&& keeps_mode_flags(p, q)
        }),
{
    reveal(adc);
    let sum = a as int + m as int + carry_in(p);
    let result = (sum % 256) as u8;
    let v = sign(a as int) == sign(m as int) && sign(sum) != sign(a as int);
    lemma_arith_flags(p, v, sum > 255, result);
}

/// In binary mode SBC subtracts with borrow: the result is `a - m - (1 - C)`
/// modulo 256, the carry says no borrow was needed, V says the signed
/// difference leaves -128..=127, N and Z follow the result.
pub proof fn law_sbc_binary(a: u8, m: u8, p: u8)
    requires
        !flag_set(p, DECIMAL),
    ensures
        ({
            let (result, q) = sbc(a, m, p);
            let difference = a as int - m as int - (1 - carry_in(p));
            &&& result as int == difference % 256
            &&& flag_set(q, CARRY) == (difference >= 0)
            &&& flag_set(q, OVERFLOW) == !(-128 <= signed(a) - signed(m) - (1 - carry_in(p)) <= 127)
            &&& flag_set(q, NEGATIVE) == (result >= 0x80)
            &&& flag_set(q, ZERO) == (result == 0)
            &&& keeps_mode_flags(p, q)
        }),
{
    reveal(sbc);
    let t = sbc_difference(a, m, p);
    let result = (t % 256) as u8;
    let v = sign(t) != sign(a as int) && sign(a as int) != sign(m as int);
    lemma_arith_flags(p, v, t < 0x100, result);
}

/// In binary mode SBC is ADC of the operand's complement.
pub proof fn law_sbc_is_adc_of_complement(a: u8, m: u8, p: u8)
    requires
        !flag_set(p, DECIMAL),
    ensures
        sbc(a, m, p) == adc(a, !m, p),
{
    reveal(adc);
    reveal(sbc);
    assert(!m == 255 - m) by (bit_vector);
}

/// CMP, CPX and CPY: C says the register is at least the operand, Z says
/// they are equal, N is bit 7 of their difference; V, I, D, B are kept.
pub proof fn law_compare(r: u8, m: u8, p: u8)
    ensures
        flag_set(compare(r, m, p), CARRY) == (r >= m),
        flag_set(compare(r, m, p), ZERO) == (r == m),
        flag_set(compare(r, m, p), NEGATIVE) == ((r as int - m as int) % 256 >= 128),
        flag_set(compare(r, m, p), OVERFLOW) == flag_set(p, OVERFLOW),
        keeps_mode_flags(p, compare(r, m, p)),
{
    reveal(compare);
    let p1 = with_flag(p, CARRY, r >= m);
    lemma_flag_update(p, CARRY, r >= m);
    lemma_nz_update(p1, ((r as int - m as int) % 256) as u8);
}

/// In decimal mode ADC adds packed-BCD numbers: for valid BCD operands the
/// result is the valid BCD of the decimal sum (with the carry) modulo 100,
/// and the carry says the decimal sum exceeds 99.
pub proof fn law_adc_decimal(a: u8, m: u8, p: u8)
    requires
        flag_set(p, DECIMAL),
        bcd_valid(a),
        bcd_valid(m),
    ensures
        ({
            let (result, q) = adc(a, m, p);
            let sum = bcd_value(a) + bcd_value(m) + carry_in(p);
            &&& bcd_valid(result)
            &&& bcd_value(result) == sum % 100
            &&& flag_set(q, CARRY) == (sum > 99)
        }),
{
    reveal(adc);
    let c: u16 = carry_in(p) as u16;
    let t = bcd_add(a, m, c);
    assert({
        let r = (t as int % 256) as u8;
        &&& r % 16 <= 9
        &&& r / 16 <= 9
        &&& (r / 16) as int * 10 + (r % 16) as int == ((a / 16) as int * 10 + (a % 16) as int + (m / 16) as int * 10 + (m % 16) as int + c as int) % 100
        &&& (t > 0xff) == ((a / 16) as int * 10 + (a % 16) as int + (m / 16) as int * 10 + (m % 16) as int + c as int > 99)
    }) by (bit_vector)
        requires
            a % 16 <= 9,
            a / 16 <= 9,
            m % 16 <= 9,
            m / 16 <= 9,
            c <= 1,
            t == bcd_add(a, m, c),
    ;
    let v = sign(a as int) == sign(m as int) && sign(t as int) != sign(a as int);
    lemma_arith_flags(p, v, t > 0xff, (t as int % 256) as u8);
}

/// In decimal mode SBC subtracts packed-BCD numbers: for valid BCD operands
/// the result is the valid BCD of the decimal difference (with the borrow)
/// modulo 100, and the carry says no borrow was needed.
pub proof fn law_sbc_decimal(a: u8, m: u8, p: u8)
    requires
        flag_set(p, DECIMAL),
        bcd_valid(a),
        bcd_valid(m),
    ensures
        ({
            let (result, q) = sbc(a, m, p);
            let difference = bcd_value(a) - bcd_value(m) - (1 - carry_in(p));
            &&& bcd_valid(result)
            &&& bcd_value(result) == difference % 100
            &&& flag_set(q, CARRY) == (difference >= 0)
        }),
{
    reveal(sbc);
    let b: u16 = (1 - carry_in(p)) as u16;
    let t = bcd_sub(a, m, b);
    assert({
        let r = (t as int % 256) as u8;
        &&& r % 16 <= 9
        &&& r / 16 <= 9
        &&& (r / 16) as int * 10 + (r % 16) as int == ((a / 16) as int * 10 + (a % 16) as int - (m / 16) as int * 10 - (m % 16) as int - b as int) % 100
        &&& (t < 0x100) == ((a / 16) as int * 10 + (a % 16) as int - (m / 16) as int * 10 - (m % 16) as int - b as int >= 0)
    }) by (bit_vector)
        requires
            a % 16 <= 9,
            a / 16 <= 9,
            m % 16 <= 9,
            m / 16 <= 9,
            b <= 1,
            t == bcd_sub(a, m, b),
    ;
    let v = sign(t as int) != sign(a as int) && sign(a as int) != sign(m as int);
    lemma_arith_flags(p, v, t < 0x100, (t as int % 256) as u8);
}

/// What a read of `address` by `cpu` returns once the writes `ws` have gone
/// out on the bus, when every write goes to RAM: the last
/// value written there, or what it held before.
pub open spec fn load_after<M: MemoryController>(cpu: Cpu6510<M>, ws: Seq<(u16, u8)>, address: u16) -> u8
    decreases ws.len(),
{
    if ws.len() == 0 {
        cpu.load(address)
    } else if ws.last().0 == address {
        ws.last().1
    } else {
        load_after(cpu, ws.drop_last(), address)
    }
}

/// Whether the stack page (0x0100..=0x01ff) is RAM in `mem`.
pub open spec fn stack_is_ram<M: MemoryController>(mem: M) -> bool {
    forall|a: u16| 0x100 <= a <= 0x1ff ==> #[trigger] mem.is_ram(a)
}

proof fn lemma_stack_writes_to_ram<M: MemoryController>(mem: M, ws: Seq<(u16, u8)>)
    requires
        stack_is_ram(mem),
        forall|i: int| 0 <= i < ws.len() ==> 0x100 <= #[trigger] ws[i].0 <= 0x1ff,
    ensures
        writes_to_ram(mem, ws),
{
    assert forall|i: int| 0 <= i < ws.len() implies mem.is_ram(#[trigger] ws[i].0) by {
        assert(0x100 <= ws[i].0 <= 0x1ff);
    }
}

proof fn lemma_load_after_parts<M: MemoryController>(cpu: Cpu6510<M>, ws: Seq<(u16, u8)>, address: u16)
    ensures
        address == 0 ==> port_after(cpu.port()@, ws).0 == load_after(cpu, ws, address),
        address == 1 ==> port_after(cpu.port()@, ws).1 == load_after(cpu, ws, address),
        address != 0 && address != 1 ==> mem_after(cpu.memory(), ws, address) == load_after(cpu, ws, address),
    decreases ws.len(),
{
    if ws.len() > 0 {
        lemma_load_after_parts(cpu, ws.drop_last(), address);
    }
}

/// Reads after a run of bus writes see the writes.
pub proof fn lemma_load_after<M: MemoryController>(s0: Cpu6510<M>, s1: Cpu6510<M>, ws: Seq<(u16, u8)>, address: u16)
    requires
        s0.wrote_bus(s1, ws),
        writes_to_ram(s0.memory(), ws),
    ensures
        s1.load(address) == load_after(s0, ws, address),
{
    reveal(stored_writes);
    lemma_load_after_parts(s0, ws, address);
}

/// A read gives back what the last write to the same address wrote, and a
/// write changes what no other address reads, where the address written is RAM.
pub proof fn law_read_after_write<M: MemoryController>(s0: Cpu6510<M>, s1: Cpu6510<M>, address: u16, value: u8, other: u16)
    requires
        s0.wrote(s1, seq![(address, value)]),
        s0.memory().is_ram(address),
    ensures
        s1.load(address) == value,
        other != address ==> s1.load(other) == s0.load(other),
{
    let ws = seq![(address, value)];
    lemma_load_after(s0, s1, ws, address);
    lemma_load_after(s0, s1, ws, other);
    assert(ws.drop_last() =~= Seq::<(u16, u8)>::empty());
    assert(load_after(s0, ws.drop_last(), other) == s0.load(other));
}

/// Pushing a byte and popping it gives the byte back and restores the registers.
pub proof fn law_push_then_pop<M: MemoryController>(s0: Cpu6510<M>, s1: Cpu6510<M>, s2: Cpu6510<M>, value: u8, popped: u8)
    requires
        s0.pushed(value, s1),
        s1.popped(popped, s2),
        stack_is_ram(s0.memory()),
    ensures
        popped == value,
        s2.regs() == s0.regs(),
{
    let ws = seq![(stack_address(s0.regs().sp), value)];
    lemma_stack_writes_to_ram(s0.memory(), ws);
    lemma_load_after(s0, s1, ws, stack_address(s0.regs().sp));
}

/// PHA then PLA restores the accumulator and the stack pointer and sets N
/// and Z from the accumulator.
pub proof fn law_pha_then_pla<M: MemoryController>(s0: Cpu6510<M>, s1: Cpu6510<M>, s2: Cpu6510<M>, c1: u8, c2: u8)
    requires
        s0.executes(Instruction::PHA(c1), s1),
        s1.executes(Instruction::PLA(c2), s2),
        stack_is_ram(s0.memory()),
    ensures
        s2.regs() == (Registers { p: with_nz(s0.regs().p, s0.regs().a), ..s0.regs() }),
{
    let ws = seq![(stack_address(s0.regs().sp), s0.regs().a)];
    lemma_stack_writes_to_ram(s0.memory(), ws);
    lemma_load_after(s0, s1, ws, stack_address(s0.regs().sp));
}

/// PHP then PLP restores the status with B and the reserved bit set.
pub proof fn law_php_then_plp<M: MemoryController>(s0: Cpu6510<M>, s1: Cpu6510<M>, s2: Cpu6510<M>, c1: u8, c2: u8)
    requires
        s0.executes(Instruction::PHP(c1), s1),
        s1.executes(Instruction::PLP(c2), s2),
        stack_is_ram(s0.memory()),
    ensures
        s2.regs() == (Registers {
            p: with_flag(with_flag(s0.regs().p, BREAK, true), RESERVED, true),
            ..s0.regs()
        }),
{
    let ws = seq![(stack_address(s0.regs().sp), with_flag(with_flag(s0.regs().p, BREAK, true), RESERVED, true))];
    lemma_stack_writes_to_ram(s0.memory(), ws);
    lemma_load_after(s0, s1, ws, stack_address(s0.regs().sp));
}

/// JSR jumps to its target, and the RTS that follows returns to the
/// instruction after the JSR with the stack pointer restored.
pub proof fn law_jsr_then_rts<M: MemoryController>(
    s0: Cpu6510<M>,
    s1: Cpu6510<M>,
    s2: Cpu6510<M>,
    target: u16,
    c1: u8,
    c2: u8,
)
    requires
        s0.executes(Instruction::JSR(Operand::Absolute(target), c1), s1),
        s1.executes(Instruction::RTS(c2), s2),
        stack_is_ram(s0.memory()),
    ensures
        s1.regs().pc == target,
        s2.regs() == s0.regs(),
{
    let r = s0.regs();
    let ret = add16(r.pc, -1);
    let ws = seq![(stack_address(r.sp), hi(ret)), (stack_address(add8(r.sp, -1)), lo(ret))];
    lemma_stack_writes_to_ram(s0.memory(), ws);
    lemma_load_after(s0, s1, ws, stack_address(r.sp));
    lemma_load_after(s0, s1, ws, stack_address(add8(r.sp, -1)));
    assert(ws.drop_last() =~= seq![(stack_address(r.sp), hi(ret))]);
    assert(ws.drop_last().drop_last() =~= Seq::<(u16, u8)>::empty());
    let sp1 = s1.regs().sp;
    assert(sp1 == add8(r.sp, -2));
    assert(add8(sp1, 1) == add8(r.sp, -1));
    assert(add8(sp1, 2) == r.sp);
    assert(stack_address(r.sp) != stack_address(add8(r.sp, -1)));
    assert(load_after(s0, ws, stack_address(add8(r.sp, -1))) == lo(ret));
    assert(load_after(s0, ws, stack_address(r.sp)) == load_after(s0, ws.drop_last(), stack_address(r.sp)));
    assert(load_after(s0, ws, stack_address(r.sp)) == hi(ret));
    assert(word(lo(ret), hi(ret)) == ret);
    assert(add16(ret, 1) == r.pc);
}

/// An IRQ or NMI sequence followed by RTI resumes at the interrupted
/// instruction with the status restored (B clear) and the stack pointer restored.
pub proof fn law_interrupt_then_rti<M: MemoryController>(
    s0: Cpu6510<M>,
    s1: Cpu6510<M>,
    s2: Cpu6510<M>,
    interrupt: Interrupt,
    c: u8,
)
    requires
        interrupt == Interrupt::Irq || interrupt == Interrupt::Nmi,
        s0.interrupted(interrupt, s1),
        s1.executes(Instruction::RTI(c), s2),
        stack_is_ram(s0.memory()),
    ensures
        flag_set(s1.regs().p, INT_DISABLE),
        s2.regs() == (Registers { p: with_flag(s0.regs().p, BREAK, false), ..s0.regs() }),
{
    let r = s0.regs();
    let ws = seq![
        (stack_address(r.sp), hi(r.pc)),
        (stack_address(add8(r.sp, -1)), lo(r.pc)),
        (stack_address(add8(r.sp, -2)), with_flag(r.p, BREAK, false)),
    ];
    lemma_flag_update(r.p, INT_DISABLE, true);
    lemma_stack_writes_to_ram(s0.memory(), ws);
    lemma_load_after(s0, s1, ws, stack_address(r.sp));
    lemma_load_after(s0, s1, ws, stack_address(add8(r.sp, -1)));
    lemma_load_after(s0, s1, ws, stack_address(add8(r.sp, -2)));
    assert(ws.drop_last() =~= seq![(stack_address(r.sp), hi(r.pc)), (stack_address(add8(r.sp, -1)), lo(r.pc))]);
    assert(ws.drop_last().drop_last() =~= seq![(stack_address(r.sp), hi(r.pc))]);
    assert(ws.drop_last().drop_last().drop_last() =~= Seq::<(u16, u8)>::empty());
    let a0 = stack_address(r.sp);
    let a1 = stack_address(add8(r.sp, -1));
    let a2 = stack_address(add8(r.sp, -2));
    assert(a0 != a1 && a0 != a2 && a1 != a2);
    let sp1 = s1.regs().sp;
    assert(sp1 == add8(r.sp, -3));
    assert(add8(sp1, 1) == add8(r.sp, -2));
    assert(add8(sp1, 2) == add8(r.sp, -1));
    assert(add8(sp1, 3) == r.sp);
    assert(load_after(s0, ws, a2) == with_flag(r.p, BREAK, false));
    assert(load_after(s0, ws, a1) == load_after(s0, ws.drop_last(), a1));
    assert(load_after(s0, ws, a1) == lo(r.pc));
    assert(load_after(s0, ws, a0) == load_after(s0, ws.drop_last(), a0));
    assert(load_after(s0, ws.drop_last(), a0) == load_after(s0, ws.drop_last().drop_last(), a0));
    assert(load_after(s0, ws, a0) == hi(r.pc));
    assert(word(lo(r.pc), hi(r.pc)) == r.pc);
}

/// BRK followed by RTI resumes two bytes past the BRK opcode (BRK's
/// padding byte is skipped) with the status it had plus B and the reserved bit.
pub proof fn law_brk_then_rti<M: MemoryController>(s0: Cpu6510<M>, s1: Cpu6510<M>, s2: Cpu6510<M>, c1: u8, c2: u8)
    requires
        s0.regs().pc != 0xffff,
        s0.executes(Instruction::BRK(c1), s1),
        s1.executes(Instruction::RTI(c2), s2),
        stack_is_ram(s0.memory()),
    ensures
        s2.regs() == (Registers {
            pc: (s0.regs().pc + 1) as u16,
            p: with_flag(with_flag(s0.regs().p, BREAK, true), RESERVED, true),
            ..s0.regs()
        }),
{
    let r = s0.regs();
    let ret = add16(r.pc, 1);
    let status = with_flag(with_flag(r.p, BREAK, true), RESERVED, true);
    let ws = seq![
        (stack_address(r.sp), hi(ret)),
        (stack_address(add8(r.sp, -1)), lo(ret)),
        (stack_address(add8(r.sp, -2)), status),
    ];
    lemma_stack_writes_to_ram(s0.memory(), ws);
    lemma_load_after(s0, s1, ws, stack_address(r.sp));
    lemma_load_after(s0, s1, ws, stack_address(add8(r.sp, -1)));
    lemma_load_after(s0, s1, ws, stack_address(add8(r.sp, -2)));
    assert(ws.drop_last() =~= seq![(stack_address(r.sp), hi(ret)), (stack_address(add8(r.sp, -1)), lo(ret))]);
    assert(ws.drop_last().drop_last() =~= seq![(stack_address(r.sp), hi(ret))]);
    assert(ws.drop_last().drop_last().drop_last() =~= Seq::<(u16, u8)>::empty());
    let a0 = stack_address(r.sp);
    let a1 = stack_address(add8(r.sp, -1));
    let a2 = stack_address(add8(r.sp, -2));
    assert(a0 != a1 && a0 != a2 && a1 != a2);
    let sp1 = s1.regs().sp;
    assert(sp1 == add8(r.sp, -3));
    assert(add8(sp1, 1) == add8(r.sp, -2));
    assert(add8(sp1, 2) == add8(r.sp, -1));
    assert(add8(sp1, 3) == r.sp);
    assert(load_after(s0, ws, a2) == status);
    assert(load_after(s0, ws, a1) == load_after(s0, ws.drop_last(), a1));
    assert(load_after(s0, ws, a1) == lo(ret));
    assert(load_after(s0, ws, a0) == load_after(s0, ws.drop_last(), a0));
    assert(load_after(s0, ws.drop_last(), a0) == load_after(s0, ws.drop_last().drop_last(), a0));
    assert(load_after(s0, ws, a0) == hi(ret));
    assert(word(lo(ret), hi(ret)) == ret);
}

/// A flag reads back as it was last set, and setting it leaves the other flags alone.
pub proof fn law_set_then_test_flag(p: u8, flag: Flag, value: bool, other: Flag)
    ensures
        flag_set(with_flag(p, flag.spec_mask(), value), flag.spec_mask()) == value,
        other != flag ==> flag_set(with_flag(p, flag.spec_mask(), value), other.spec_mask()) == flag_set(
            p,
            other.spec_mask(),
        ),
{
    lemma_flag_update(p, flag.spec_mask(), value);
    assert(other != flag ==> other.spec_mask() != flag.spec_mask());
}

/// ROL of the accumulator followed by ROR of it restores the accumulator and the carry.
pub proof fn law_rol_then_ror<M: MemoryController>(s0: Cpu6510<M>, s1: Cpu6510<M>, s2: Cpu6510<M>, c1: u8, c2: u8)
    requires
        s0.executes(Instruction::ROL(Operand::Accumulator, c1), s1),
        s1.executes(Instruction::ROR(Operand::Accumulator, c2), s2),
    ensures
        s2.regs().a == s0.regs().a,
        flag_set(s2.regs().p, CARRY) == flag_set(s0.regs().p, CARRY),
{
    reveal(rol);
    reveal(ror);
    let r = s0.regs();
    let (v, c) = rol(r.a, flag_set(r.p, CARRY));
    let p1 = with_nz(with_flag(r.p, CARRY, c), v);
    lemma_flag_update(r.p, CARRY, c);
    lemma_nz_update(with_flag(r.p, CARRY, c), v);
    let (w, d) = ror(v, flag_set(p1, CARRY));
    lemma_flag_update(p1, CARRY, d);
    lemma_nz_update(with_flag(p1, CARRY, d), w);
}

/// INX followed by DEX restores X.
pub proof fn law_inx_then_dex<M: MemoryController>(s0: Cpu6510<M>, s1: Cpu6510<M>, s2: Cpu6510<M>, c1: u8, c2: u8)
    requires
        s0.executes(Instruction::INX(c1), s1),
        s1.executes(Instruction::DEX(c2), s2),
    ensures
        s2.regs() == (Registers { p: s2.regs().p, ..s0.regs() }),
        flag_set(s2.regs().p, ZERO) == (s0.regs().x == 0),
        flag_set(s2.regs().p, NEGATIVE) == (s0.regs().x >= 0x80),
        flag_set(s2.regs().p, CARRY) == flag_set(s0.regs().p, CARRY),
{
    let r = s0.regs();
    lemma_nz_update(r.p, add8(r.x, 1));
    lemma_nz_update(s1.regs().p, r.x);
}

/// EOR with the same operand twice restores the accumulator.
pub proof fn law_eor_twice<M: MemoryController>(s0: Cpu6510<M>, s1: Cpu6510<M>, s2: Cpu6510<M>, m: u8, c1: u8, c2: u8)
    requires
        s0.executes(Instruction::EOR(Operand::Immediate(m), c1), s1),
        s1.executes(Instruction::EOR(Operand::Immediate(m), c2), s2),
    ensures
        s2.regs().a == s0.regs().a,
{
    let a = s0.regs().a;
    assert((m ^ (m ^ a)) == a) by (bit_vector);
}

/// TAX followed by TXA leaves A as it was and copies it into X.
pub proof fn law_tax_then_txa<M: MemoryController>(s0: Cpu6510<M>, s1: Cpu6510<M>, s2: Cpu6510<M>, c1: u8, c2: u8)
    requires
        s0.executes(Instruction::TAX(c1), s1),
        s1.executes(Instruction::TXA(c2), s2),
    ensures
        s2.regs().a == s0.regs().a,
        s2.regs().x == s0.regs().a,
{
}

/// Whether the operand's address depends on the registers alone (not on memory).
pub open spec fn direct_operand(op: Operand) -> bool {
    op is ZeroPage || op is ZeroPageX || op is ZeroPageY || op is Absolute || op is AbsoluteX
        || op is AbsoluteY
}

/// STA to an operand followed by LDA from the same operand loads back the
/// accumulator, where the operand's address is RAM.
pub proof fn law_sta_then_lda<M: MemoryController>(
    s0: Cpu6510<M>,
    s1: Cpu6510<M>,
    s2: Cpu6510<M>,
    op: Operand,
    c1: u8,
    c2: u8,
)
    requires
        direct_operand(op),
        s0.executes(Instruction::STA(op, c1), s1),
        s1.executes(Instruction::LDA(op, c2), s2),
        s0.memory().is_ram(op.address_in(s0)),
    ensures
        s2.regs().a == s0.regs().a,
        s2.regs().p == with_nz(s0.regs().p, s0.regs().a),
{
    let address = op.address_in(s0);
    assert(op.address_in(s1) == address);
    law_read_after_write(s0, s1, address, s0.regs().a, address);
}

/// An instruction writes only to the stack page (0x0100..=0x01ff) or to its
/// operand's effective address.
pub proof fn law_writes_stay_in_stack_or_operand<M: MemoryController>(cpu: Cpu6510<M>, instr: Instruction, i: int)
    requires
        0 <= i < instr.bus_writes_in(cpu).len(),
    ensures
        ({
            let address = instr.bus_writes_in(cpu)[i].0;
            ||| 0x0100 <= address <= 0x01ff
            ||| (instr.operand() matches Some(op) && address == op.address_in(cpu))
        }),
{
}

/// Decoding inverts the encoding: two instructions with the same opcode, the
/// same cycle count and operands read from the same bytes are the same
/// instruction, so `decode` gives back exactly the instruction that was encoded.
#[verifier::rlimit(50)]
pub proof fn law_encoding_is_unique<M: MemoryController>(i: Instruction, j: Instruction, cpu: Cpu6510<M>, pc: u16)
    requires
        i.encoding() is Some,
        i.encoding() == j.encoding(),
        i.cycles() == j.cycles(),
        i.operand_fetched(cpu, pc),
        j.operand_fetched(cpu, pc),
    ensures
        i == j,
{
}

/// Resetting twice leaves the CPU as one reset does: the same registers (the
/// second reset reads the same vector), I/O port, memory, interrupt lines and
/// cycle count, where the port's two addresses are RAM underneath it.
pub proof fn law_reset_twice<M: MemoryController>(s0: Cpu6510<M>, s1: Cpu6510<M>, s2: Cpu6510<M>)
    requires
        s0.was_reset(s1),
        s1.was_reset(s2),
        s0.memory().is_ram(0),
        s0.memory().is_ram(1),
    ensures
        s2.regs() == s1.regs(),
        s2.port()@ == s1.port()@,
        forall|a: u16| #[trigger] s2.memory().peek(a) == s1.memory().peek(a),
        s2.irq_line()@ == s1.irq_line()@,
        s2.nmi_line()@ == s1.nmi_line()@,
        s2.ticks() == s1.ticks(),
{
    reveal(stored_writes);
    let ws = seq![(0x0000u16, 0x2fu8), (0x0001u16, 0x1fu8)];
    assert(ws.drop_last() =~= seq![(0x0000u16, 0x2fu8)]);
    assert(ws.drop_last().drop_last() =~= Seq::<(u16, u8)>::empty());
    assert(writes_to_ram(s0.memory(), ws));
    assert(writes_to_ram(s1.memory(), ws));
    assert forall|a: u16| #[trigger] s2.memory().peek(a) == s1.memory().peek(a) by {
        assert(s2.memory().peek(a) == mem_after(s1.memory(), ws, a));
        assert(s1.memory().peek(a) == mem_after(s0.memory(), ws, a));
        assert(mem_after(s1.memory(), ws.drop_last(), a) == (if a == 0 { 0x2fu8 } else { mem_after(s1.memory(), ws.drop_last().drop_last(), a) }));
        assert(mem_after(s0.memory(), ws.drop_last(), a) == (if a == 0 { 0x2fu8 } else { mem_after(s0.memory(), ws.drop_last().drop_last(), a) }));
    }
    assert(port_after(s0.port()@, ws.drop_last()).0 == 0x2f);
    assert(port_after(s1.port()@, ws.drop_last()).0 == 0x2f);
    assert(port_after(s0.port()@, ws) == (0x2fu8, 0x1fu8));
    assert(port_after(s1.port()@, ws) == (0x2fu8, 0x1fu8));
    assert(s2.load(0xfffc) == s1.load(0xfffc));
    assert(s2.load(0xfffd) == s1.load(0xfffd));
}

/// A debugger's write has the effect of the same bus write, without its
/// cycle: the same registers, I/O port, interrupt lines and bus log, the same
/// memory where the address written is RAM, and one cycle fewer counted.
pub proof fn law_write_debug_is_write_without_cycle<M: MemoryController>(
    s0: Cpu6510<M>,
    debugged: Cpu6510<M>,
    written: Cpu6510<M>,
    address: u16,
    value: u8,
)
    requires
        debugged.regs() == s0.regs(),
        s0.wrote(debugged, seq![(address, value)]),
        debugged.ticks() == s0.ticks(),
        written.regs() == s0.regs(),
        s0.wrote(written, seq![(address, value)]),
        written.ticks() == s0.ticks() + 1,
    ensures
        debugged.regs() == written.regs(),
        debugged.port()@ == written.port()@,
        debugged.irq_line() == written.irq_line(),
        debugged.nmi_line() == written.nmi_line(),
        debugged.bus_writes() == written.bus_writes(),
        s0.memory().is_ram(address) ==> forall|a: u16| #[trigger] debugged.memory().peek(a) == written.memory().peek(a),
        written.ticks() == debugged.ticks() + 1,
{
    reveal(stored_writes);
}

// -- What each instruction does, stated in terms of its operand and the registers

/// Bit `k` (0 = least significant) of `v`.
pub open spec fn bit(v: u8, k: u8) -> bool {
    (v >> k) & 1 == 1
}

/// `after` is the status `before` with N and Z describing `v` and every other
/// flag kept.
pub open spec fn nz_describes(before: u8, after: u8, v: u8) -> bool {
    &&& flag_set(after, NEGATIVE) == (v >= 0x80)
    &&& flag_set(after, ZERO) == (v == 0)
    &&& flag_set(after, CARRY) == flag_set(before, CARRY)
    &&& flag_set(after, OVERFLOW) == flag_set(before, OVERFLOW)
    &&& keeps_mode_flags(before, after)
}

/// The status flag that a conditional branch with this opcode tests: bits 7
/// and 6 of the opcode select N, V, C or Z, in that order.
pub open spec fn branch_flag(opcode: u8) -> u8 {
    if opcode / 64 == 0 {
        NEGATIVE
    } else if opcode / 64 == 1 {
        OVERFLOW
    } else if opcode / 64 == 2 {
        CARRY
    } else {
        ZERO
    }
}

/// A conditional branch (its opcode's low five bits are 10000) compares the
/// flag that bits 7-6 select with bit 5: exactly when they agree it jumps to
/// the program counter plus its signed offset; otherwise no register changes.
#[verifier::rlimit(100)]
#[verifier::spinoff_prover]
pub proof fn law_branch_by_opcode<M: MemoryController>(s0: Cpu6510<M>, s1: Cpu6510<M>, instr: Instruction, opcode: u8)
    requires
        instr.encoding() == Some(opcode),
        opcode % 32 == 16,
        s0.executes(instr, s1),
    ensures
        instr.operand() matches Some(Operand::Relative(offset)) && {
            let r = s0.regs();
            if flag_set(r.p, branch_flag(opcode)) == (opcode / 32 % 2 == 1) {
                s1.regs() == (Registers { pc: add16(r.pc, offset as int), ..r })
            } else {
                s1.regs() == r
            }
        },
{
}

proof fn lemma_and_bits(a: u8, b: u8)
    ensures
        forall|k: u8| k < 8 ==> bit(a & b, k) == (bit(a, k) && bit(b, k)),
{
    assert(forall|k: u8| k < 8 ==> (((a & b) >> k) & 1 == 1) == (((a >> k) & 1 == 1) && ((b >> k) & 1 == 1))) by (bit_vector);
}

proof fn lemma_or_bits(a: u8, b: u8)
    ensures
        forall|k: u8| k < 8 ==> bit(a | b, k) == (bit(a, k) || bit(b, k)),
{
    assert(forall|k: u8| k < 8 ==> (((a | b) >> k) & 1 == 1) == (((a >> k) & 1 == 1) || ((b >> k) & 1 == 1))) by (bit_vector);
}

proof fn lemma_xor_bits(a: u8, b: u8)
    ensures
        forall|k: u8| k < 8 ==> bit(a ^ b, k) == (bit(a, k) != bit(b, k)),
{
    assert(forall|k: u8| k < 8 ==> (((a ^ b) >> k) & 1 == 1) == (((a >> k) & 1 == 1) != ((b >> k) & 1 == 1))) by (bit_vector);
}

/// AND leaves in A each bit set both in A and in the operand; N and Z
/// describe the result and no other register changes.
pub proof fn law_and<M: MemoryController>(s0: Cpu6510<M>, s1: Cpu6510<M>, op: Operand, c: u8)
    requires
        s0.executes(Instruction::AND(op, c), s1),
    ensures
        forall|k: u8| k < 8 ==> bit(s1.regs().a, k) == (bit(s0.regs().a, k) && bit(op.value_in(s0), k)),
        s1.regs() == (Registers { a: s1.regs().a, p: s1.regs().p, ..s0.regs() }),
        nz_describes(s0.regs().p, s1.regs().p, s1.regs().a),
{
    lemma_and_bits(op.value_in(s0), s0.regs().a);
    lemma_nz_update(s0.regs().p, s1.regs().a);
}

/// ORA leaves in A each bit set in A or in the operand; N and Z describe the
/// result and no other register changes.
pub proof fn law_ora<M: MemoryController>(s0: Cpu6510<M>, s1: Cpu6510<M>, op: Operand, c: u8)
    requires
        s0.executes(Instruction::ORA(op, c), s1),
    ensures
        forall|k: u8| k < 8 ==> bit(s1.regs().a, k) == (bit(s0.regs().a, k) || bit(op.value_in(s0), k)),
        s1.regs() == (Registers { a: s1.regs().a, p: s1.regs().p, ..s0.regs() }),
        nz_describes(s0.regs().p, s1.regs().p, s1.regs().a),
{
    lemma_or_bits(op.value_in(s0), s0.regs().a);
    lemma_nz_update(s0.regs().p, s1.regs().a);
}

/// EOR leaves in A each bit set in exactly one of A and the operand; N and Z
/// describe the result and no other register changes.
pub proof fn law_eor<M: MemoryController>(s0: Cpu6510<M>, s1: Cpu6510<M>, op: Operand, c: u8)
    requires
        s0.executes(Instruction::EOR(op, c), s1),
    ensures
        forall|k: u8| k < 8 ==> bit(s1.regs().a, k) == (bit(s0.regs().a, k) != bit(op.value_in(s0), k)),
        s1.regs() == (Registers { a: s1.regs().a, p: s1.regs().p, ..s0.regs() }),
        nz_describes(s0.regs().p, s1.regs().p, s1.regs().a),
{
    lemma_xor_bits(op.value_in(s0), s0.regs().a);
    lemma_nz_update(s0.regs().p, s1.regs().a);
}

/// LDA, LDX and LDY put the operand's value into A, X and Y respectively,
/// leave the two other of these registers, SP and PC as they were, and set N
/// and Z from the value.
pub proof fn law_load<M: MemoryController>(s0: Cpu6510<M>, s1: Cpu6510<M>, instr: Instruction, op: Operand, c: u8)
    requires
        instr == Instruction::LDA(op, c) || instr == Instruction::LDX(op, c) || instr == Instruction::LDY(op, c),
        s0.executes(instr, s1),
    ensures
        ({
            let (r, q, v) = (s0.regs(), s1.regs(), op.value_in(s0));
            &&& q.a == (if instr is LDA { v } else { r.a })
            &&& q.x == (if instr is LDX { v } else { r.x })
            &&& q.y == (if instr is LDY { v } else { r.y })
            &&& q.sp == r.sp
            &&& q.pc == r.pc
            &&& nz_describes(r.p, q.p, v)
        }),
{
    lemma_nz_update(s0.regs().p, op.value_in(s0));
}

/// The transfers copy one register into another: TAX A to X, TAY A to Y,
/// TXA X to A, TYA Y to A, TSX SP to X (these set N and Z from the value) and
/// TXS X to SP (which leaves the flags); no other register changes.
pub proof fn law_transfer<M: MemoryController>(s0: Cpu6510<M>, s1: Cpu6510<M>, instr: Instruction, c: u8)
    requires
        instr == Instruction::TAX(c) || instr == Instruction::TAY(c) || instr == Instruction::TXA(c)
            || instr == Instruction::TYA(c) || instr == Instruction::TSX(c) || instr == Instruction::TXS(c),
        s0.executes(instr, s1),
    ensures
        ({
            let (r, q) = (s0.regs(), s1.regs());
            let v = if instr is TAX || instr is TAY { r.a } else if instr is TXA || instr is TXS { r.x } else if instr is TYA { r.y } else { r.sp };
            &&& q.a == (if instr is TXA || instr is TYA { v } else { r.a })
            &&& q.x == (if instr is TAX || instr is TSX { v } else { r.x })
            &&& q.y == (if instr is TAY { v } else { r.y })
            &&& q.sp == (if instr is TXS { v } else { r.sp })
            &&& q.pc == r.pc
            &&& (if instr is TXS { q.p == r.p } else { nz_describes(r.p, q.p, v) })
        }),
{
    let r = s0.regs();
    lemma_nz_update(r.p, r.a);
    lemma_nz_update(r.p, r.x);
    lemma_nz_update(r.p, r.y);
    lemma_nz_update(r.p, r.sp);
}

/// INX, INY, DEX and DEY add one to or take one from X or Y, modulo 256; N
/// and Z describe the result and no other register changes.
pub proof fn law_register_step<M: MemoryController>(s0: Cpu6510<M>, s1: Cpu6510<M>, instr: Instruction, c: u8)
    requires
        instr == Instruction::INX(c) || instr == Instruction::INY(c) || instr == Instruction::DEX(c)
            || instr == Instruction::DEY(c),
        s0.executes(instr, s1),
    ensures
        ({
            let (r, q) = (s0.regs(), s1.regs());
            let before = if instr is INX || instr is DEX { r.x } else { r.y };
            let after = if instr is INX || instr is DEX { q.x } else { q.y };
            let step = if instr is INX || instr is INY { 1int } else { -1int };
            &&& after as int == (before as int + step) % 256
            &&& (if instr is INX || instr is DEX { q.y == r.y } else { q.x == r.x })
            &&& q.a == r.a && q.sp == r.sp && q.pc == r.pc
            &&& nz_describes(r.p, q.p, after)
        }),
{
    let r = s0.regs();
    lemma_nz_update(r.p, add8(r.x, 1));
    lemma_nz_update(r.p, add8(r.y, 1));
    lemma_nz_update(r.p, add8(r.x, -1));
    lemma_nz_update(r.p, add8(r.y, -1));
}

/// ADC adds the operand and the carry to A. In binary mode A becomes the sum
/// modulo 256, C says the sum exceeds 255, V says the signed sum leaves
/// -128..=127; in decimal mode, on valid BCD operands, A is the BCD of the
/// decimal sum modulo 100 and C says that sum exceeds 99. Only A and the
/// flags change.
pub proof fn law_adc_executes<M: MemoryController>(s0: Cpu6510<M>, s1: Cpu6510<M>, op: Operand, c: u8)
    requires
        s0.executes(Instruction::ADC(op, c), s1),
    ensures
        ({
            let (r, q, m) = (s0.regs(), s1.regs(), op.value_in(s0));
            let sum = r.a as int + m as int + carry_in(r.p);
            let decimal_sum = bcd_value(r.a) + bcd_value(m) + carry_in(r.p);
            &&& q == (Registers { a: q.a, p: q.p, ..r })
            &&& !flag_set(r.p, DECIMAL) ==> {
                &&& q.a as int == sum % 256
                &&& flag_set(q.p, CARRY) == (sum > 255)
                &&& flag_set(q.p, OVERFLOW) == !(-128 <= signed(r.a) + signed(m) + carry_in(r.p) <= 127)
                &&& flag_set(q.p, NEGATIVE) == (q.a >= 0x80)
                &&& flag_set(q.p, ZERO) == (q.a == 0)
                &&& keeps_mode_flags(r.p, q.p)
            }
            &&& flag_set(r.p, DECIMAL) && bcd_valid(r.a) && bcd_valid(m) ==> {
                &&& bcd_valid(q.a)
                &&& bcd_value(q.a) == decimal_sum % 100
                &&& flag_set(q.p, CARRY) == (decimal_sum > 99)
            }
        }),
{
    let (r, m) = (s0.regs(), op.value_in(s0));
    if !flag_set(r.p, DECIMAL) {
        law_adc_binary(r.a, m, r.p);
    } else if bcd_valid(r.a) && bcd_valid(m) {
        law_adc_decimal(r.a, m, r.p);
    }
}

/// SBC subtracts the operand and the borrow (the clear carry) from A. In
/// binary mode A becomes the difference modulo 256, C says no borrow was
/// needed, V says the signed difference leaves -128..=127; in decimal mode,
/// on valid BCD operands, A is the BCD of the decimal difference modulo 100
/// and C says it is not negative. Only A and the flags change.
pub proof fn law_sbc_executes<M: MemoryController>(s0: Cpu6510<M>, s1: Cpu6510<M>, op: Operand, c: u8)
    requires
        s0.executes(Instruction::SBC(op, c), s1),
    ensures
        ({
            let (r, q, m) = (s0.regs(), s1.regs(), op.value_in(s0));
            let difference = r.a as int - m as int - (1 - carry_in(r.p));
            let decimal_difference = bcd_value(r.a) - bcd_value(m) - (1 - carry_in(r.p));
            &&& q == (Registers { a: q.a, p: q.p, ..r })
            &&& !flag_set(r.p, DECIMAL) ==> {
                &&& q.a as int == difference % 256
                &&& flag_set(q.p, CARRY) == (difference >= 0)
                &&& flag_set(q.p, OVERFLOW) == !(-128 <= signed(r.a) - signed(m) - (1 - carry_in(r.p)) <= 127)
                &&& flag_set(q.p, NEGATIVE) == (q.a >= 0x80)
                &&& flag_set(q.p, ZERO) == (q.a == 0)
                &&& keeps_mode_flags(r.p, q.p)
            }
            &&& flag_set(r.p, DECIMAL) && bcd_valid(r.a) && bcd_valid(m) ==> {
                &&& bcd_valid(q.a)
                &&& bcd_value(q.a) == decimal_difference % 100
                &&& flag_set(q.p, CARRY) == (decimal_difference >= 0)
            }
        }),
{
    let (r, m) = (s0.regs(), op.value_in(s0));
    if !flag_set(r.p, DECIMAL) {
        law_sbc_binary(r.a, m, r.p);
    } else if bcd_valid(r.a) && bcd_valid(m) {
        law_sbc_decimal(r.a, m, r.p);
    }
}

/// CMP, CPX and CPY compare A, X and Y respectively with the operand: C says
/// the register is at least the operand, Z that they are equal, N is bit 7
/// of their difference; V, I, D and B are kept and no register but P changes.
pub proof fn law_compare_executes<M: MemoryController>(s0: Cpu6510<M>, s1: Cpu6510<M>, instr: Instruction, op: Operand, c: u8)
    requires
        instr == Instruction::CMP(op, c) || instr == Instruction::CPX(op, c) || instr == Instruction::CPY(op, c),
        s0.executes(instr, s1),
    ensures
        ({
            let (r, q, m) = (s0.regs(), s1.regs(), op.value_in(s0));
            let reg = if instr is CMP { r.a } else if instr is CPX { r.x } else { r.y };
            &&& q == (Registers { p: q.p, ..r })
            &&& flag_set(q.p, CARRY) == (reg >= m)
            &&& flag_set(q.p, ZERO) == (reg == m)
            &&& flag_set(q.p, NEGATIVE) == ((reg as int - m as int) % 256 >= 128)
            &&& flag_set(q.p, OVERFLOW) == flag_set(r.p, OVERFLOW)
            &&& keeps_mode_flags(r.p, q.p)
        }),
{
    let (r, m) = (s0.regs(), op.value_in(s0));
    law_compare(r.a, m, r.p);
    law_compare(r.x, m, r.p);
    law_compare(r.y, m, r.p);
}

/// The value a read-modify-write instruction leaves in its operand:
/// `after` is `s0` with A holding `v` (for the accumulator operand), or with
/// `v` written to the operand's address.
pub open spec fn operand_becomes<M: MemoryController>(s0: Cpu6510<M>, s1: Cpu6510<M>, op: Operand, v: u8) -> bool {
    if op is Accumulator {
        &&& s1.regs() == (Registers { a: v, p: s1.regs().p, ..s0.regs() })
        &&& s0.same_devices(s1)
    } else {
        &&& s1.regs() == (Registers { p: s1.regs().p, ..s0.regs() })
        &&& s0.wrote(s1, seq![(op.address_in(s0), v)])
    }
}

/// ASL doubles the operand modulo 256 and LSR halves it; ROL doubles it and
/// adds the carry, ROR halves it and adds 128 for the carry. The bit shifted
/// out (bit 7 for ASL and ROL, bit 0 for LSR and ROR) becomes the carry, N
/// and Z describe the result, and the other flags are kept.
pub proof fn law_shift_executes<M: MemoryController>(s0: Cpu6510<M>, s1: Cpu6510<M>, instr: Instruction, op: Operand, c: u8)
    requires
        instr == Instruction::ASL(op, c) || instr == Instruction::LSR(op, c) || instr == Instruction::ROL(op, c)
            || instr == Instruction::ROR(op, c),
        s0.executes(instr, s1),
    ensures
        ({
            let (r, q, m) = (s0.regs(), s1.regs(), op.value_in(s0));
            let cin = carry_in(r.p);
            let v: int = if instr is ASL {
                (m * 2) % 256
            } else if instr is LSR {
                m as int / 2
            } else if instr is ROL {
                (m * 2 + cin) % 256
            } else {
                m as int / 2 + 128 * cin
            };
            let out = if instr is ASL || instr is ROL { m >= 128 } else { m % 2 == 1 };
            &&& 0 <= v < 256
            &&& operand_becomes(s0, s1, op, v as u8)
            &&& flag_set(q.p, CARRY) == out
            &&& flag_set(q.p, NEGATIVE) == (v >= 128)
            &&& flag_set(q.p, ZERO) == (v == 0)
            &&& flag_set(q.p, OVERFLOW) == flag_set(r.p, OVERFLOW)
            &&& keeps_mode_flags(r.p, q.p)
        }),
{
    reveal(crate::alu::asl);
    reveal(crate::alu::lsr);
    reveal(rol);
    reveal(ror);
    let (r, m) = (s0.regs(), op.value_in(s0));
    let cin = flag_set(r.p, CARRY);
    let (v, out) = if instr is ASL {
        crate::alu::asl(m)
    } else if instr is LSR {
        crate::alu::lsr(m)
    } else if instr is ROL {
        rol(m, cin)
    } else {
        ror(m, cin)
    };
    lemma_flag_update(r.p, CARRY, out);
    lemma_nz_update(with_flag(r.p, CARRY, out), v);
}

/// INC and DEC add one to or take one from the operand, modulo 256; N and Z
/// describe the result and the other flags are kept.
pub proof fn law_step_operand<M: MemoryController>(s0: Cpu6510<M>, s1: Cpu6510<M>, instr: Instruction, op: Operand, c: u8)
    requires
        instr == Instruction::INC(op, c) || instr == Instruction::DEC(op, c),
        s0.executes(instr, s1),
    ensures
        ({
            let (r, q, m) = (s0.regs(), s1.regs(), op.value_in(s0));
            let v: int = if instr is INC { (m + 1) % 256 } else { (m - 1) % 256 };
            &&& operand_becomes(s0, s1, op, v as u8)
            &&& nz_describes(r.p, q.p, v as u8)
        }),
{
    let (r, m) = (s0.regs(), op.value_in(s0));
    lemma_nz_update(r.p, add8(m, 1));
    lemma_nz_update(r.p, add8(m, -1));
}

/// STA, STX and STY write A, X and Y respectively to the operand's address
/// and change no register.
pub proof fn law_store<M: MemoryController>(s0: Cpu6510<M>, s1: Cpu6510<M>, instr: Instruction, op: Operand, c: u8)
    requires
        instr == Instruction::STA(op, c) || instr == Instruction::STX(op, c) || instr == Instruction::STY(op, c),
        op.has_address(),
        s0.executes(instr, s1),
    ensures
        ({
            let r = s0.regs();
            let reg = if instr is STA { r.a } else if instr is STX { r.x } else { r.y };
            &&& s1.regs() == r
            &&& s0.wrote(s1, seq![(op.address_in(s0), reg)])
        }),
{
}

/// The flag instructions: CLC, CLD, CLI and CLV clear C, D, I and V, SEC,
/// SED and SEI set C, D and I; every other flag and register is kept.
pub proof fn law_flag_instruction<M: MemoryController>(s0: Cpu6510<M>, s1: Cpu6510<M>, instr: Instruction, c: u8)
    requires
        instr == Instruction::CLC(c) || instr == Instruction::CLD(c) || instr == Instruction::CLI(c)
            || instr == Instruction::CLV(c) || instr == Instruction::SEC(c) || instr == Instruction::SED(c)
            || instr == Instruction::SEI(c),
        s0.executes(instr, s1),
    ensures
        ({
            let (r, q) = (s0.regs(), s1.regs());
            let flag = if instr is CLC || instr is SEC {
                CARRY
            } else if instr is CLD || instr is SED {
                DECIMAL
            } else if instr is CLI || instr is SEI {
                INT_DISABLE
            } else {
                OVERFLOW
            };
            let set = instr is SEC || instr is SED || instr is SEI;
            &&& q == (Registers { p: q.p, ..r })
            &&& flag_set(q.p, flag) == set
            &&& forall|other: u8|
                (other == CARRY || other == ZERO || other == INT_DISABLE || other == DECIMAL || other == BREAK
                    || other == RESERVED || other == OVERFLOW || other == NEGATIVE) && other != flag
                    ==> #[trigger] flag_set(q.p, other) == flag_set(r.p, other)
            &&& s0.same_devices(s1)
        }),
{
    let r = s0.regs();
    lemma_flag_update(r.p, CARRY, false);
    lemma_flag_update(r.p, CARRY, true);
    lemma_flag_update(r.p, DECIMAL, false);
    lemma_flag_update(r.p, DECIMAL, true);
    lemma_flag_update(r.p, INT_DISABLE, false);
    lemma_flag_update(r.p, INT_DISABLE, true);
    lemma_flag_update(r.p, OVERFLOW, false);
}

/// BIT tests the operand against A: N is bit 7 of the operand, V its bit 6,
/// Z says no bit is set in both; C, I, D, B are kept and no other register
/// changes.
pub proof fn law_bit_test<M: MemoryController>(s0: Cpu6510<M>, s1: Cpu6510<M>, op: Operand, c: u8)
    requires
        s0.executes(Instruction::BIT(op, c), s1),
    ensures
        ({
            let (r, q, m) = (s0.regs(), s1.regs(), op.value_in(s0));
            &&& q == (Registers { p: q.p, ..r })
            &&& flag_set(q.p, NEGATIVE) == bit(m, 7)
            &&& flag_set(q.p, OVERFLOW) == bit(m, 6)
            &&& flag_set(q.p, ZERO) == (forall|k: u8| k < 8 ==> !(#[trigger] bit(r.a, k) && bit(m, k)))
            &&& flag_set(q.p, CARRY) == flag_set(r.p, CARRY)
            &&& keeps_mode_flags(r.p, q.p)
        }),
{
    let (r, m) = (s0.regs(), op.value_in(s0));
    lemma_and_bits(m, r.a);
    assert(bit(m, 7) == (m >= 0x80) && bit(m, 6) == ((m as int / 64) % 2 == 1)
        && ((m & r.a == 0) == (forall|k: u8| k < 8 ==> !(bit(m & r.a, k))))) by {
        lemma_byte_tests(m, r.a);
    }
    assert((forall|k: u8| k < 8 ==> !bit(m & r.a, k)) == (forall|k: u8| k < 8 ==> !(#[trigger] bit(r.a, k) && bit(m, k)))) by {
        if forall|k: u8| k < 8 ==> !bit(m & r.a, k) {
            assert forall|k: u8| k < 8 implies !(#[trigger] bit(r.a, k) && bit(m, k)) by {
                assert(!bit(m & r.a, k));
            }
        }
        if forall|k: u8| k < 8 ==> !(#[trigger] bit(r.a, k) && bit(m, k)) {
            assert forall|k: u8| k < 8 implies !bit(m & r.a, k) by {
                assert(!(bit(r.a, k) && bit(m, k)));
            }
        }
    }
    let p1 = with_flag(r.p, NEGATIVE, m >= 0x80);
    let p2 = with_flag(p1, OVERFLOW, (m as int / 64) % 2 == 1);
    lemma_flag_update(r.p, NEGATIVE, m >= 0x80);
    lemma_flag_update(p1, OVERFLOW, (m as int / 64) % 2 == 1);
    lemma_flag_update(p2, ZERO, m & r.a == 0);
}

proof fn lemma_byte_tests(m: u8, a: u8)
    ensures
        bit(m, 7) == (m >= 0x80),
        bit(m, 6) == ((m as int / 64) % 2 == 1),
        (m & a == 0) == (forall|k: u8| k < 8 ==> !(bit(m & a, k))),
{
    assert(((m >> 7u8) & 1 == 1) == (m >= 0x80) && ((m >> 6u8) & 1 == 1) == ((m / 64) % 2 == 1)) by (bit_vector);
    lemma_zero_bits(m & a);
}

/// A byte is zero exactly when none of its eight bits is set.
proof fn lemma_zero_bits(v: u8)
    ensures
        (v == 0) == (forall|k: u8| k < 8 ==> !bit(v, k)),
{
    if forall|k: u8| k < 8 ==> !bit(v, k) {
        assert(!bit(v, 0) && !bit(v, 1) && !bit(v, 2) && !bit(v, 3) && !bit(v, 4) && !bit(v, 5) && !bit(v, 6)
            && !bit(v, 7));
        assert(v == 0) by (bit_vector)
            requires
                (v >> 0u8) & 1 != 1,
                (v >> 1u8) & 1 != 1,
                (v >> 2u8) & 1 != 1,
                (v >> 3u8) & 1 != 1,
                (v >> 4u8) & 1 != 1,
                (v >> 5u8) & 1 != 1,
                (v >> 6u8) & 1 != 1,
                (v >> 7u8) & 1 != 1,
        ;
    }
    if v == 0 {
        assert(forall|k: u8| k < 8 ==> ((v >> k) & 1 != 1)) by (bit_vector)
            requires
                v == 0,
        ;
    }
}

/// JMP continues at the operand's address; no other register changes.
pub proof fn law_jmp<M: MemoryController>(s0: Cpu6510<M>, s1: Cpu6510<M>, op: Operand, c: u8)
    requires
        s0.executes(Instruction::JMP(op, c), s1),
    ensures
        s1.regs() == (Registers { pc: op.address_in(s0), ..s0.regs() }),
        s0.same_devices(s1),
{
}

/// PHA and PHP write A, and P with B and the reserved bit set, to the stack
/// slot 0x0100 + SP and move SP down by one; PLA and PLP take the byte from
/// the slot above SP into A (setting N and Z) and into P, and move SP up by
/// one. No other register changes.
pub proof fn law_stack_instruction<M: MemoryController>(s0: Cpu6510<M>, s1: Cpu6510<M>, instr: Instruction, c: u8)
    requires
        instr == Instruction::PHA(c) || instr == Instruction::PHP(c) || instr == Instruction::PLA(c)
            || instr == Instruction::PLP(c),
        s0.executes(instr, s1),
    ensures
        ({
            let (r, q) = (s0.regs(), s1.regs());
            let pulled = s0.load((0x0100 + (r.sp as int + 1) % 256) as u16);
            &&& instr is PHA ==> q == (Registers { sp: ((r.sp as int - 1) % 256) as u8, ..r }) && s0.wrote(s1, seq![((0x0100 + r.sp as int) as u16, r.a)])
            &&& instr is PHP ==> q == (Registers { sp: ((r.sp as int - 1) % 256) as u8, ..r }) && s0.wrote(s1, seq![((0x0100 + r.sp as int) as u16, r.p | 0x30)])
            &&& instr is PLA ==> q == (Registers { a: pulled, p: q.p, sp: ((r.sp as int + 1) % 256) as u8, ..r }) && nz_describes(r.p, q.p, pulled) && s0.same_devices(s1)
            &&& instr is PLP ==> q == (Registers { p: pulled, sp: ((r.sp as int + 1) % 256) as u8, ..r }) && s0.same_devices(s1)
        }),
{
    let r = s0.regs();
    let p = r.p;
    assert(p | 0x10 | 0x20 == p | 0x30) by (bit_vector);
    lemma_nz_update(r.p, s0.load((0x0100 + (r.sp as int + 1) % 256) as u16));
}

/// An instruction's operand holds the bytes that follow the opcode: a
/// one-byte operand the byte at `pc`, a signed branch offset that byte read
/// as two's complement, and a two-byte operand the little-endian word of the
/// bytes at `pc` and `pc + 1`.
pub proof fn law_operand_bytes<M: MemoryController>(instr: Instruction, cpu: Cpu6510<M>, pc: u16)
    requires
        instr.operand_fetched(cpu, pc),
    ensures
        ({
            let (first, second) = (cpu.load(pc), cpu.load(((pc as int + 1) % 65536) as u16));
            match instr.operand() {
                Some(Operand::Immediate(v)) | Some(Operand::ZeroPage(v)) | Some(Operand::ZeroPageX(v))
                | Some(Operand::ZeroPageY(v)) | Some(Operand::IndirectX(v)) | Some(Operand::IndirectY(v)) => v == first,
                Some(Operand::Absolute(w)) | Some(Operand::AbsoluteX(w)) | Some(Operand::AbsoluteY(w))
                | Some(Operand::Indirect(w)) => w as int == first as int + 256 * second as int,
                Some(Operand::Relative(offset)) => offset as int == signed(first),
                _ => true,
            }
        }),
{
    let first = cpu.load(pc);
    assert((first as i8) as int == signed(first)) by (bit_vector);
}

/// The stack slot `k` bytes below the one SP points at.
pub open spec fn slot(sp: u8, k: int) -> u16 {
    (0x0100 + (sp as int - k) % 256) as u16
}

/// The interrupt sequences. IRQ and NMI push the program counter (high byte
/// first) and P with B clear, BRK the address two past its opcode and P with
/// B and the reserved bit set; each then sets I, leaves SP three lower and
/// loads PC from its vector: 0xfffe for IRQ and BRK, 0xfffa for NMI. Reset
/// pushes nothing and loads PC from 0xfffc. A, X and Y are kept.
pub proof fn law_interrupt_sequence<M: MemoryController>(s0: Cpu6510<M>, s1: Cpu6510<M>, interrupt: Interrupt)
    requires
        s0.interrupted(interrupt, s1),
    ensures
        ({
            let (r, q) = (s0.regs(), s1.regs());
            let vector: int = if interrupt is Nmi { 0xfffa } else if interrupt is Reset { 0xfffc } else { 0xfffe };
            let ret: int = if interrupt is Break { (r.pc as int + 1) % 65536 } else { r.pc as int };
            &&& q.pc as int == s1.load(vector as u16) as int + 256 * s1.load((vector + 1) as u16) as int
            &&& q.a == r.a && q.x == r.x && q.y == r.y
            &&& interrupt is Reset ==> q.p == r.p && q.sp == r.sp && s0.wrote_bus(s1, Seq::empty())
            &&& !(interrupt is Reset) ==> {
                &&& q.sp as int == (r.sp as int - 3) % 256
                &&& flag_set(q.p, INT_DISABLE)
                &&& s0.wrote_bus(s1, seq![
                    (slot(r.sp, 0), (ret / 256) as u8),
                    (slot(r.sp, 1), (ret % 256) as u8),
                    (slot(r.sp, 2), if interrupt is Break { r.p | 0x30 } else { r.p & 0xef }),
                ])
            }
        }),
{
    let r = s0.regs();
    let p = r.p;
    assert(p | 0x10 | 0x20 == p | 0x30 && p & !0x10u8 == p & 0xef) by (bit_vector);
    lemma_flag_update(r.p, INT_DISABLE, true);
}

/// Before it fetches, a step services a held NMI line first, then a held IRQ
/// line if I is clear, and otherwise leaves the CPU as it is.
pub proof fn law_service_priority<M: MemoryController>(s0: Cpu6510<M>, s1: Cpu6510<M>)
    requires
        s0.serviced(s1),
    ensures
        s0.nmi_line()@ != 0 ==> s0.interrupted(Interrupt::Nmi, s1),
        s0.nmi_line()@ == 0 && s0.irq_line()@ != 0 && !flag_set(s0.regs().p, INT_DISABLE) ==> s0.interrupted(
            Interrupt::Irq,
            s1,
        ),
        s0.nmi_line()@ == 0 && (s0.irq_line()@ == 0 || flag_set(s0.regs().p, INT_DISABLE)) ==> s1 == s0,
{
}

/// After a reset A, X, Y, P and SP are zero, the I/O port reads 0x2f at
/// 0x0000 and 0x1f at 0x0001, both interrupt lines are released, and PC
/// holds the little-endian word at 0xfffc.
pub proof fn law_reset_state<M: MemoryController>(s0: Cpu6510<M>, s1: Cpu6510<M>)
    requires
        s0.was_reset(s1),
    ensures
        s1.regs().a == 0 && s1.regs().x == 0 && s1.regs().y == 0 && s1.regs().p == 0 && s1.regs().sp == 0,
        s1.load(0x0000) == 0x2f,
        s1.load(0x0001) == 0x1f,
        s1.irq_line()@ == 0 && s1.nmi_line()@ == 0,
        s1.regs().pc as int == s1.load(0xfffc) as int + 256 * s1.load(0xfffd) as int,
{
    let ws = seq![(0x0000u16, 0x2fu8), (0x0001u16, 0x1fu8)];
    assert(ws.drop_last() =~= seq![(0x0000u16, 0x2fu8)]);
    assert(ws.drop_last().drop_last() =~= Seq::<(u16, u8)>::empty());
    assert(port_after(s0.port()@, ws.drop_last()).0 == 0x2f);
    assert(port_after(s0.port()@, ws) == (0x2fu8, 0x1fu8));
}

// -- The opcode matrix

/// The addressing mode of an operand, its bytes set aside.
pub open spec fn mode_of(op: Operand) -> Operand {
    match op {
        Operand::Accumulator => Operand::Accumulator,
        Operand::Immediate(_) => Operand::Immediate(0),
        Operand::ZeroPage(_) => Operand::ZeroPage(0),
        Operand::ZeroPageX(_) => Operand::ZeroPageX(0),
        Operand::ZeroPageY(_) => Operand::ZeroPageY(0),
        Operand::Absolute(_) => Operand::Absolute(0),
        Operand::AbsoluteX(_) => Operand::AbsoluteX(0),
        Operand::AbsoluteY(_) => Operand::AbsoluteY(0),
        Operand::Indirect(_) => Operand::Indirect(0),
        Operand::IndirectX(_) => Operand::IndirectX(0),
        Operand::IndirectY(_) => Operand::IndirectY(0),
        Operand::Relative(_) => Operand::Relative(0),
    }
}

/// The mnemonic and addressing mode of an instruction: its operand bytes and
/// cycle count set aside.
pub open spec fn shape(i: Instruction) -> Instruction {
    match i {
        Instruction::LDA(op, _) => Instruction::LDA(mode_of(op), 0),
        Instruction::LDX(op, _) => Instruction::LDX(mode_of(op), 0),
        Instruction::LDY(op, _) => Instruction::LDY(mode_of(op), 0),
        Instruction::STA(op, _) => Instruction::STA(mode_of(op), 0),
        Instruction::STX(op, _) => Instruction::STX(mode_of(op), 0),
        Instruction::STY(op, _) => Instruction::STY(mode_of(op), 0),
        Instruction::ADC(op, _) => Instruction::ADC(mode_of(op), 0),
        Instruction::SBC(op, _) => Instruction::SBC(mode_of(op), 0),
        Instruction::CMP(op, _) => Instruction::CMP(mode_of(op), 0),
        Instruction::CPX(op, _) => Instruction::CPX(mode_of(op), 0),
        Instruction::CPY(op, _) => Instruction::CPY(mode_of(op), 0),
        Instruction::DEC(op, _) => Instruction::DEC(mode_of(op), 0),
        Instruction::INC(op, _) => Instruction::INC(mode_of(op), 0),
        Instruction::AND(op, _) => Instruction::AND(mode_of(op), 0),
        Instruction::EOR(op, _) => Instruction::EOR(mode_of(op), 0),
        Instruction::ORA(op, _) => Instruction::ORA(mode_of(op), 0),
        Instruction::ASL(op, _) => Instruction::ASL(mode_of(op), 0),
        Instruction::LSR(op, _) => Instruction::LSR(mode_of(op), 0),
        Instruction::ROL(op, _) => Instruction::ROL(mode_of(op), 0),
        Instruction::ROR(op, _) => Instruction::ROR(mode_of(op), 0),
        Instruction::BCC(op, _) => Instruction::BCC(mode_of(op), 0),
        Instruction::BCS(op, _) => Instruction::BCS(mode_of(op), 0),
        Instruction::BEQ(op, _) => Instruction::BEQ(mode_of(op), 0),
        Instruction::BMI(op, _) => Instruction::BMI(mode_of(op), 0),
        Instruction::BNE(op, _) => Instruction::BNE(mode_of(op), 0),
        Instruction::BPL(op, _) => Instruction::BPL(mode_of(op), 0),
        Instruction::BVC(op, _) => Instruction::BVC(mode_of(op), 0),
        Instruction::BVS(op, _) => Instruction::BVS(mode_of(op), 0),
        Instruction::JMP(op, _) => Instruction::JMP(mode_of(op), 0),
        Instruction::JSR(op, _) => Instruction::JSR(mode_of(op), 0),
        Instruction::BIT(op, _) => Instruction::BIT(mode_of(op), 0),
        Instruction::PHA(_) => Instruction::PHA(0),
        Instruction::PHP(_) => Instruction::PHP(0),
        Instruction::PLA(_) => Instruction::PLA(0),
        Instruction::PLP(_) => Instruction::PLP(0),
        Instruction::TAX(_) => Instruction::TAX(0),
        Instruction::TAY(_) => Instruction::TAY(0),
        Instruction::TSX(_) => Instruction::TSX(0),
        Instruction::TXA(_) => Instruction::TXA(0),
        Instruction::TXS(_) => Instruction::TXS(0),
        Instruction::TYA(_) => Instruction::TYA(0),
        Instruction::DEX(_) => Instruction::DEX(0),
        Instruction::DEY(_) => Instruction::DEY(0),
        Instruction::INX(_) => Instruction::INX(0),
        Instruction::INY(_) => Instruction::INY(0),
        Instruction::RTS(_) => Instruction::RTS(0),
        Instruction::BRK(_) => Instruction::BRK(0),
        Instruction::CLC(_) => Instruction::CLC(0),
        Instruction::CLD(_) => Instruction::CLD(0),
        Instruction::CLI(_) => Instruction::CLI(0),
        Instruction::CLV(_) => Instruction::CLV(0),
        Instruction::NOP(_) => Instruction::NOP(0),
        Instruction::SEC(_) => Instruction::SEC(0),
        Instruction::SED(_) => Instruction::SED(0),
        Instruction::SEI(_) => Instruction::SEI(0),
        Instruction::RTI(_) => Instruction::RTI(0),
    }
}


/// The instructions whose opcodes end in binary 01, by bits 7-5 of the opcode.
pub open spec fn group_one(aaa: int, mode: Operand) -> Instruction {
    if aaa == 0 {
        Instruction::ORA(mode, 0)
    } else if aaa == 1 {
        Instruction::AND(mode, 0)
    } else if aaa == 2 {
        Instruction::EOR(mode, 0)
    } else if aaa == 3 {
        Instruction::ADC(mode, 0)
    } else if aaa == 4 {
        Instruction::STA(mode, 0)
    } else if aaa == 5 {
        Instruction::LDA(mode, 0)
    } else if aaa == 6 {
        Instruction::CMP(mode, 0)
    } else {
        Instruction::SBC(mode, 0)
    }
}

/// The instructions whose opcodes end in binary 10 and take an operand, by
/// bits 7-5 of the opcode.
pub open spec fn group_two(aaa: int, mode: Operand) -> Instruction {
    if aaa == 0 {
        Instruction::ASL(mode, 0)
    } else if aaa == 1 {
        Instruction::ROL(mode, 0)
    } else if aaa == 2 {
        Instruction::LSR(mode, 0)
    } else if aaa == 3 {
        Instruction::ROR(mode, 0)
    } else if aaa == 4 {
        Instruction::STX(mode, 0)
    } else if aaa == 5 {
        Instruction::LDX(mode, 0)
    } else if aaa == 6 {
        Instruction::DEC(mode, 0)
    } else {
        Instruction::INC(mode, 0)
    }
}

/// The conditional branches, by bits 7-5 of the opcode: the flag (N, V, C,
/// Z) and whether the branch is taken when it is clear or set.
pub open spec fn branch_of(aaa: int) -> Instruction {
    let mode = Operand::Relative(0);
    if aaa == 0 {
        Instruction::BPL(mode, 0)
    } else if aaa == 1 {
        Instruction::BMI(mode, 0)
    } else if aaa == 2 {
        Instruction::BVC(mode, 0)
    } else if aaa == 3 {
        Instruction::BVS(mode, 0)
    } else if aaa == 4 {
        Instruction::BCC(mode, 0)
    } else if aaa == 5 {
        Instruction::BCS(mode, 0)
    } else if aaa == 6 {
        Instruction::BNE(mode, 0)
    } else {
        Instruction::BEQ(mode, 0)
    }
}

/// The documented 6510 instruction (mnemonic and addressing mode) of an
/// opcode, read off the opcode's bit fields aaabbbcc as the instruction
/// matrix lays them out: cc picks a group, aaa the operation and bbb the
/// addressing mode, with the single-byte instructions in the columns bbb =
/// 010 and 110. `None` for an opcode no documented instruction has.
pub open spec fn documented(opcode: u8) -> Option<Instruction> {
    let aaa = opcode / 32;
    let bbb = (opcode / 4) % 8;
    let cc = opcode % 4;
    if cc == 1 {
        let mode = if bbb == 0 {
            Operand::IndirectX(0)
        } else if bbb == 1 {
            Operand::ZeroPage(0)
        } else if bbb == 2 {
            Operand::Immediate(0)
        } else if bbb == 3 {
            Operand::Absolute(0)
        } else if bbb == 4 {
            Operand::IndirectY(0)
        } else if bbb == 5 {
            Operand::ZeroPageX(0)
        } else if bbb == 6 {
            Operand::AbsoluteY(0)
        } else {
            Operand::AbsoluteX(0)
        };
        if aaa == 4 && bbb == 2 {
            None
        } else {
            Some(group_one(aaa as int, mode))
        }
    } else if cc == 2 {
        let indexed_by_y = aaa == 4 || aaa == 5;
        if bbb == 0 {
            if aaa == 5 {
                Some(Instruction::LDX(Operand::Immediate(0), 0))
            } else {
                None
            }
        } else if bbb == 1 {
            Some(group_two(aaa as int, Operand::ZeroPage(0)))
        } else if bbb == 2 {
            if aaa < 4 {
                Some(group_two(aaa as int, Operand::Accumulator))
            } else if aaa == 4 {
                Some(Instruction::TXA(0))
            } else if aaa == 5 {
                Some(Instruction::TAX(0))
            } else if aaa == 6 {
                Some(Instruction::DEX(0))
            } else {
                Some(Instruction::NOP(0))
            }
        } else if bbb == 3 {
            Some(group_two(aaa as int, Operand::Absolute(0)))
        } else if bbb == 5 {
            Some(group_two(aaa as int, if indexed_by_y { Operand::ZeroPageY(0) } else { Operand::ZeroPageX(0) }))
        } else if bbb == 6 {
            if aaa == 4 {
                Some(Instruction::TXS(0))
            } else if aaa == 5 {
                Some(Instruction::TSX(0))
            } else {
                None
            }
        } else if bbb == 7 {
            if aaa == 4 {
                None
            } else {
                Some(group_two(aaa as int, if indexed_by_y { Operand::AbsoluteY(0) } else { Operand::AbsoluteX(0) }))
            }
        } else {
            None
        }
    } else if cc == 0 {
        if bbb == 4 {
            Some(branch_of(aaa as int))
        } else if bbb == 2 {
            Some(
                if aaa == 0 {
                    Instruction::PHP(0)
                } else if aaa == 1 {
                    Instruction::PLP(0)
                } else if aaa == 2 {
                    Instruction::PHA(0)
                } else if aaa == 3 {
                    Instruction::PLA(0)
                } else if aaa == 4 {
                    Instruction::DEY(0)
                } else if aaa == 5 {
                    Instruction::TAY(0)
                } else if aaa == 6 {
                    Instruction::INY(0)
                } else {
                    Instruction::INX(0)
                },
            )
        } else if bbb == 6 {
            Some(
                if aaa == 0 {
                    Instruction::CLC(0)
                } else if aaa == 1 {
                    Instruction::SEC(0)
                } else if aaa == 2 {
                    Instruction::CLI(0)
                } else if aaa == 3 {
                    Instruction::SEI(0)
                } else if aaa == 4 {
                    Instruction::TYA(0)
                } else if aaa == 5 {
                    Instruction::CLV(0)
                } else if aaa == 6 {
                    Instruction::CLD(0)
                } else {
                    Instruction::SED(0)
                },
            )
        } else if bbb == 0 && aaa < 4 {
            Some(
                if aaa == 0 {
                    Instruction::BRK(0)
                } else if aaa == 1 {
                    Instruction::JSR(Operand::Absolute(0), 0)
                } else if aaa == 2 {
                    Instruction::RTI(0)
                } else {
                    Instruction::RTS(0)
                },
            )
        } else {
            let mode = if bbb == 0 {
                Operand::Immediate(0)
            } else if bbb == 1 {
                Operand::ZeroPage(0)
            } else if bbb == 3 {
                if aaa == 3 { Operand::Indirect(0) } else { Operand::Absolute(0) }
            } else if bbb == 5 {
                Operand::ZeroPageX(0)
            } else {
                Operand::AbsoluteX(0)
            };
            if aaa == 1 && (bbb == 1 || bbb == 3) {
                Some(Instruction::BIT(mode, 0))
            } else if (aaa == 2 || aaa == 3) && bbb == 3 {
                Some(Instruction::JMP(mode, 0))
            } else if aaa == 4 && (bbb == 1 || bbb == 3 || bbb == 5) {
                Some(Instruction::STY(mode, 0))
            } else if aaa == 5 {
                Some(Instruction::LDY(mode, 0))
            } else if aaa == 6 && (bbb == 0 || bbb == 1 || bbb == 3) {
                Some(Instruction::CPY(mode, 0))
            } else if aaa == 7 && (bbb == 0 || bbb == 1 || bbb == 3) {
                Some(Instruction::CPX(mode, 0))
            } else {
                None
            }
        }
    } else {
        None
    }
}

/// Every opcode the decoder knows is the documented one: the instruction
/// that encodes to an opcode has the mnemonic and addressing mode that the
/// opcode's bit fields name in the 6510's instruction matrix.
#[verifier::rlimit(100)]
pub proof fn law_encoding_is_documented(i: Instruction, opcode: u8)
    requires
        i.encoding() == Some(opcode),
    ensures
        documented(opcode) == Some(shape(i)),
{
}

/// Every documented opcode is decoded: the instruction the opcode matrix
/// names for it encodes to it.
#[verifier::rlimit(100)]
pub proof fn law_documented_is_encoded(opcode: u8)
    ensures
        documented(opcode) matches Some(s) ==> s.encoding() == Some(opcode),
{
}

/// Without an indexed or relative operand (where a page crossing or a taken
/// branch adds cycles), an instruction takes the cycles its opcode lists:
/// the opcode fetch, one cycle per operand byte and the cycles it executes.
/// A read-modify-write on a zero-page indexed operand is left out: it adds
/// the index in both its read and its write, one cycle more than listed.
#[verifier::rlimit(100)]
#[verifier::spinoff_prover]
pub proof fn law_cycles_match_opcode_table<M: MemoryController>(instr: Instruction, opcode: u8, cpu: Cpu6510<M>, after: Cpu6510<M>)
    requires
        instr.encoding() == Some(opcode),
        !(instr.operand() matches Some(op) && (op is AbsoluteX || op is AbsoluteY || op is IndirectY || op is Relative)),
        !((instr is INC || instr is DEC || instr is ASL || instr is LSR || instr is ROL || instr is ROR)
            && instr.operand() == Some(Operand::ZeroPageX(instr.operand().unwrap()->ZeroPageX_0))),
    ensures
        1 + instr.operand_len() + instr.ticks_in(cpu, after) == base_cycles(opcode),
{
}

} // verus!
