use vstd::prelude::*;

use crate::flags::{flag_set, with_flag, with_nz, CARRY, DECIMAL, OVERFLOW};

verus! {

/// 1 when the carry flag of `p` is set, else 0.
pub open spec fn carry_in(p: u8) -> int {
    if flag_set(p, CARRY) {
        1
    } else {
        0
    }
}

/// The sign bit (bit 7) of the low byte of `v`.
pub open spec fn sign(v: int) -> bool {
    v % 256 >= 128
}

/// The high byte of a word.
pub open spec fn hi(w: u16) -> u8 {
    (w as int / 256) as u8
}

/// The low byte of a word.
pub open spec fn lo(w: u16) -> u8 {
    (w as int % 256) as u8
}

/// `v` plus `n` (between -256 and 256), modulo 256.
pub open spec fn add8(v: u8, n: int) -> u8 {
    let t = v as int + n;
    if t >= 256 {
        (t - 256) as u8
    } else if t < 0 {
        (t + 256) as u8
    } else {
        t as u8
    }
}

/// `w` plus `n` (between -65536 and 65536), modulo 65536.
pub open spec fn add16(w: u16, n: int) -> u16 {
    let t = w as int + n;
    if t >= 0x10000 {
        (t - 0x10000) as u16
    } else if t < 0 {
        (t + 0x10000) as u16
    } else {
        t as u16
    }
}

/// Decimal-mode addition as the 6502 performs it, nibble by nibble: the low
/// nibbles are added with the carry and adjusted by 6 past 9, then the high
/// nibbles are added and the sum adjusted by 0x60 past 0x90.
pub open spec fn bcd_add(a: u8, m: u8, carry: u16) -> u16 {
    let ac = a as u16;
    let v = m as u16;
    let t0 = ((ac & 0x0f) + (v & 0x0f) + carry) as u16;
    let t1 = if t0 > 0x09 {
        (t0 + 0x06) as u16
    } else {
        t0
    };
    let t2 = (t1 + (ac & 0xf0) + (v & 0xf0)) as u16;
    if t2 & 0x01f0 > 0x90 {
        (t2 + 0x60) as u16
    } else {
        t2
    }
}

/// `x - y` on 16 bits, wrapping.
pub open spec fn sub16(x: u16, y: u16) -> u16 {
    if x >= y {
        (x - y) as u16
    } else {
        (x - y + 0x10000) as u16
    }
}

/// Decimal-mode subtraction as the 6502 performs it, nibble by nibble, with
/// `borrow` (0 or 1) taken from the low nibble.
pub open spec fn bcd_sub(a: u8, m: u8, borrow: u16) -> u16 {
    let ac = a as u16;
    let v = m as u16;
    let t0 = sub16(sub16(ac & 0x0f, v & 0x0f), borrow);
    let t1 = if t0 & 0x10 != 0 {
        (sub16(t0, 0x06) & 0x0f) | sub16(sub16(ac & 0xf0, v & 0xf0), 0x10)
    } else {
        (t0 & 0x0f) | sub16(ac & 0xf0, v & 0xf0)
    };
    if t1 & 0x0100 != 0 {
        (t1 - 0x60) as u16
    } else {
        t1
    }
}

/// The 16-bit intermediate of ADC: `a + m + carry` in binary mode, the
/// nibble-wise decimal sum in decimal mode.
pub open spec fn adc_sum(a: u8, m: u8, p: u8) -> int {
    if flag_set(p, DECIMAL) {
        bcd_add(a, m, carry_in(p) as u16) as int
    } else {
        a as int + m as int + carry_in(p)
    }
}

/// ADC: the new accumulator and status. The result is the low byte of the
/// sum; C says the sum exceeds a byte; V says the operands have the same sign
/// and the sum's sign differs from it; N and Z follow the result.
#[verifier::opaque]
pub open spec fn adc(a: u8, m: u8, p: u8) -> (u8, u8) {
    let t = adc_sum(a, m, p);
    let result = (t % 256) as u8;
    let v = sign(a as int) == sign(m as int) && sign(t) != sign(a as int);
    (result, with_nz(with_flag(with_flag(p, OVERFLOW, v), CARRY, t > 0xff), result))
}

/// The 16-bit intermediate of SBC: `a - m - borrow` modulo 65536 in binary
/// mode, the nibble-wise decimal difference in decimal mode.
pub open spec fn sbc_difference(a: u8, m: u8, p: u8) -> int {
    let borrow = 1 - carry_in(p);
    if flag_set(p, DECIMAL) {
        bcd_sub(a, m, borrow as u16) as int
    } else {
        (a as int - m as int - borrow) % 0x10000
    }
}

/// SBC: the new accumulator and status. The result is the low byte of the
/// difference; C says no borrow came out of the high byte; V says the
/// operands have different signs and the result's sign differs from `a`'s.
#[verifier::opaque]
pub open spec fn sbc(a: u8, m: u8, p: u8) -> (u8, u8) {
    let t = sbc_difference(a, m, p);
    let result = (t % 256) as u8;
    let v = sign(t) != sign(a as int) && sign(a as int) != sign(m as int);
    (result, with_nz(with_flag(with_flag(p, OVERFLOW, v), CARRY, t < 0x100), result))
}

/// CMP, CPX, CPY: the status after comparing register `r` with `m`.
/// C says `r >= m`; N and Z follow `r - m` modulo 256.
#[verifier::opaque]
pub open spec fn compare(r: u8, m: u8, p: u8) -> u8 {
    with_nz(with_flag(p, CARRY, r >= m), ((r as int - m as int) % 256) as u8)
}

/// ASL: (result, carry).
#[verifier::opaque]
pub open spec fn asl(v: u8) -> (u8, bool) {
    (((v as int * 2) % 256) as u8, v >= 0x80)
}

/// LSR: (result, carry).
#[verifier::opaque]
pub open spec fn lsr(v: u8) -> (u8, bool) {
    ((v as int / 2) as u8, v % 2 == 1)
}

/// ROL with carry-in `c`: (result, carry).
#[verifier::opaque]
pub open spec fn rol(v: u8, c: bool) -> (u8, bool) {
    (((v as int * 2 + if c { 1int } else { 0int }) % 256) as u8, v >= 0x80)
}

/// ROR with carry-in `c`: (result, carry).
#[verifier::opaque]
pub open spec fn ror(v: u8, c: bool) -> (u8, bool) {
    ((v as int / 2 + if c { 128int } else { 0int }) as u8, v % 2 == 1)
}

/// The low byte of a 16-bit value, as a mask and as a remainder.
pub proof fn lemma_low_byte(t: u16)
    ensures
        t & 0xff == t as int % 256,
{
    assert(t & 0xff == t as int % 256) by (bit_vector);
}

/// A little-endian pair of bytes assembled with shift and or.
pub proof fn lemma_word(low: u8, high: u8)
    ensures
        ((high as u16) << 8) | (low as u16) == high as int * 256 + low as int,
        (low as u16) | ((high as u16) << 8) == high as int * 256 + low as int,
{
    assert(((high as u16) << 8) | (low as u16) == high as int * 256 + low as int) by (bit_vector);
    assert((low as u16) | ((high as u16) << 8) == high as int * 256 + low as int) by (bit_vector);
}

/// The overflow test of ADC as bit operations on 16-bit values.
pub proof fn lemma_adc_overflow(ac: u16, value: u16, temp: u16)
    ensures
        ((ac ^ value) & 0x80 == 0 && (ac ^ temp) & 0x80 == 0x80) == (sign(ac as int) == sign(
            value as int,
        ) && sign(temp as int) != sign(ac as int)),
{
    assert(((ac ^ value) & 0x80 == 0 && (ac ^ temp) & 0x80 == 0x80) == ((ac as int % 256 >= 128) == (
    value as int % 256 >= 128) && (temp as int % 256 >= 128) != (ac as int % 256 >= 128)))
        by (bit_vector);
}

/// The overflow test of SBC as bit operations on 16-bit values.
pub proof fn lemma_sbc_overflow(ac: u16, value: u16, temp: u16)
    ensures
        ((ac ^ temp) & 0x80 != 0 && (ac ^ value) & 0x80 == 0x80) == (sign(temp as int) != sign(
            ac as int,
        ) && sign(ac as int) != sign(value as int)),
{
    assert(((ac ^ temp) & 0x80 != 0 && (ac ^ value) & 0x80 == 0x80) == ((temp as int % 256 >= 128)
        != (ac as int % 256 >= 128) && (ac as int % 256 >= 128) != (value as int % 256 >= 128)))
        by (bit_vector);
}

/// The nibble masks of a byte widened to 16 bits.
pub proof fn lemma_nibbles(v: u16)
    requires
        v < 256,
    ensures
        v & 0x0f <= 0x0f,
        v & 0xf0 <= 0xf0,
{
    assert(v & 0x0f <= 0x0f) by (bit_vector);
    assert(v & 0xf0 <= 0xf0) by (bit_vector);
}

/// Shifts and single-bit tests of a byte, in arithmetic terms.
pub proof fn lemma_byte_bits(v: u8)
    ensures
        (v & 0x80 != 0) == (v >= 0x80),
        (0x40 & v != 0) == ((v as int / 64) % 2 == 1),
        (v & 0x01 != 0) == (v % 2 == 1),
        v << 1 == (v as int * 2) % 256,
        v >> 1 == v as int / 2,
{
    assert((v & 0x80 != 0) == (v >= 0x80)) by (bit_vector);
    assert((0x40 & v != 0) == ((v as int / 64) % 2 == 1)) by (bit_vector);
    assert((v & 0x01 != 0) == (v % 2 == 1)) by (bit_vector);
    assert(v << 1 == (v as int * 2) % 256) by (bit_vector);
    assert(v >> 1 == v as int / 2) by (bit_vector);
}

/// ROL on a byte widened to 16 bits.
pub proof fn lemma_rol_bits(v: u8, c: bool, temp: u16)
    requires
        temp == (if c { ((v as u16) << 1) | 0x01 } else { (v as u16) << 1 }),
    ensures
        (temp > 0xff) == (v >= 0x80),
        temp & 0xff == (v as int * 2 + if c { 1int } else { 0int }) % 256,
{
    if c {
        assert((temp > 0xff) == (v >= 0x80) && temp & 0xff == (v as int * 2 + 1) % 256) by (bit_vector)
            requires
                temp == ((v as u16) << 1) | 0x01,
        ;
    } else {
        assert((temp > 0xff) == (v >= 0x80) && temp & 0xff == (v as int * 2) % 256) by (bit_vector)
            requires
                temp == (v as u16) << 1,
        ;
    }
}

/// ROR on a byte widened to 16 bits.
pub proof fn lemma_ror_bits(v: u16, c: bool, temp: u16)
    requires
        v < 256,
        temp == (if c { v | 0x100 } else { v }),
    ensures
        (temp & 0x01 != 0) == (v % 2 == 1),
        (temp >> 1) & 0xff == v as int / 2 + if c { 128int } else { 0int },
{
    if c {
        assert((temp & 0x01 != 0) == (v % 2 == 1) && (temp >> 1) & 0xff == v as int / 2 + 128) by (bit_vector)
            requires
                v < 256,
                temp == v | 0x100,
        ;
    } else {
        assert((temp & 0x01 != 0) == (v % 2 == 1) && (temp >> 1) & 0xff == v as int / 2) by (bit_vector)
            requires
                v < 256,
                temp == v,
        ;
    }
}

/// In decimal subtraction the final adjustment only happens to values of at least 0x100.
pub proof fn lemma_bit8_set(t: u16)
    ensures
        t & 0x0100 != 0 ==> t >= 0x100,
{
    assert(t & 0x0100 != 0 ==> t >= 0x100) by (bit_vector);
}

/// ADC as the executable code computes it from the 16-bit intermediate `temp`.
pub proof fn lemma_adc_exec(a: u8, m: u8, p: u8, temp: u16)
    requires
        temp as int == adc_sum(a, m, p),
    ensures
        adc(a, m, p) == ({
            let result = (temp & 0xff) as u8;
            let v = (a as u16 ^ m as u16) & 0x80 == 0 && (a as u16 ^ temp) & 0x80 == 0x80;
            (result, with_nz(with_flag(with_flag(p, OVERFLOW, v), CARRY, temp > 0xff), result))
        }),
{
    reveal(adc);
    lemma_adc_overflow(a as u16, m as u16, temp);
    lemma_low_byte(temp);
}

/// SBC as the executable code computes it from the 16-bit intermediate `temp`.
pub proof fn lemma_sbc_exec(a: u8, m: u8, p: u8, temp: u16)
    requires
        temp as int == sbc_difference(a, m, p),
    ensures
        sbc(a, m, p) == ({
            let result = (temp & 0xff) as u8;
            let v = (a as u16 ^ temp) & 0x80 != 0 && (a as u16 ^ m as u16) & 0x80 == 0x80;
            (result, with_nz(with_flag(with_flag(p, OVERFLOW, v), CARRY, temp < 0x100), result))
        }),
{
    reveal(sbc);
    lemma_sbc_overflow(a as u16, m as u16, temp);
    lemma_low_byte(temp);
}

/// A comparison as the executable code computes it: `result` is `r - m` on 16 bits.
pub proof fn lemma_compare_exec(r: u8, m: u8, p: u8, result: u16)
    requires
        result == sub16(r as u16, m as u16),
    ensures
        compare(r, m, p) == with_nz(with_flag(p, CARRY, result < 0x100), (result & 0xff) as u8),
{
    reveal(compare);
    lemma_low_byte(result);
}

/// The shifts and rotates as the executable code computes them.
pub proof fn lemma_shifts_exec(v: u8, c: bool)
    ensures
        asl(v) == (v << 1, v & 0x80 != 0),
        lsr(v) == (v >> 1, v & 0x01 != 0),
        rol(v, c) == ({
            let temp: u16 = if c { ((v as u16) << 1) | 0x01 } else { (v as u16) << 1 };
            ((temp & 0xff) as u8, temp > 0xff)
        }),
        ror(v, c) == ({
            let temp: u16 = if c { v as u16 | 0x100 } else { v as u16 };
            (((temp >> 1) & 0xff) as u8, temp & 0x01 != 0)
        }),
{
    reveal(asl);
    reveal(lsr);
    reveal(rol);
    reveal(ror);
    lemma_byte_bits(v);
    let temp: u16 = if c { ((v as u16) << 1) | 0x01 } else { (v as u16) << 1 };
    lemma_rol_bits(v, c, temp);
    let temp2: u16 = if c { v as u16 | 0x100 } else { v as u16 };
    lemma_ror_bits(v as u16, c, temp2);
}

} // verus!
