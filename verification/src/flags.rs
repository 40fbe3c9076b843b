use vstd::prelude::*;

verus! {

/// The bits of the processor status register `P`.
#[derive(Clone, Copy, PartialEq, Eq, Debug, Structural)]
pub enum Flag {
    Carry,
    Zero,
    IntDisable,
    Decimal,
    Break,
    Reserved,
    Overflow,
    Negative,
}

/// Mask of the carry bit.
pub const CARRY: u8 = 0x01;
/// Mask of the zero bit.
pub const ZERO: u8 = 0x02;
/// Mask of the interrupt-disable bit.
pub const INT_DISABLE: u8 = 0x04;
/// Mask of the decimal-mode bit.
pub const DECIMAL: u8 = 0x08;
/// Mask of the break bit.
pub const BREAK: u8 = 0x10;
/// Mask of the unused (reserved) bit.
pub const RESERVED: u8 = 0x20;
/// Mask of the overflow bit.
pub const OVERFLOW: u8 = 0x40;
/// Mask of the negative bit.
pub const NEGATIVE: u8 = 0x80;

impl Flag {
    /// The single bit of `P` that holds this flag.
    pub open spec fn spec_mask(self) -> u8 {
        match self {
            Flag::Carry => CARRY,
            Flag::Zero => ZERO,
            Flag::IntDisable => INT_DISABLE,
            Flag::Decimal => DECIMAL,
            Flag::Break => BREAK,
            Flag::Reserved => RESERVED,
            Flag::Overflow => OVERFLOW,
            Flag::Negative => NEGATIVE,
        }
    }

    pub fn mask(&self) -> (m: u8)
        ensures
            m == self.spec_mask(),
    {
        match *self {
            Flag::Carry => CARRY,
            Flag::Zero => ZERO,
            Flag::IntDisable => INT_DISABLE,
            Flag::Decimal => DECIMAL,
            Flag::Break => BREAK,
            Flag::Reserved => RESERVED,
            Flag::Overflow => OVERFLOW,
            Flag::Negative => NEGATIVE,
        }
    }
}

/// Whether the bit selected by `mask` is set in the status byte `p`.
pub open spec fn flag_set(p: u8, mask: u8) -> bool {
    p & mask != 0
}

/// The status byte `p` with the bits of `mask` set (`value`) or cleared (`!value`).
pub open spec fn with_flag(p: u8, mask: u8, value: bool) -> u8 {
    if value {
        p | mask
    } else {
        p & !mask
    }
}

/// The status byte after the negative and zero flags are set from `value`:
/// N is bit 7 of `value`, Z says whether `value` is zero.
pub open spec fn with_nz(p: u8, value: u8) -> u8 {
    with_flag(with_flag(p, NEGATIVE, value >= 0x80), ZERO, value == 0)
}

/// Setting or clearing a flag is read back by testing it.
pub proof fn lemma_flag_read_back(p: u8, mask: u8, value: bool)
    requires
        mask != 0,
    ensures
        flag_set(with_flag(p, mask, value), mask) == value,
{
    if value {
        assert((p | mask) & mask != 0) by (bit_vector)
            requires
                mask != 0,
        ;
    } else {
        assert((p & !mask) & mask == 0) by (bit_vector);
    }
}

/// Setting or clearing a flag leaves every bit outside its mask as it was.
pub proof fn lemma_flag_other_bits(p: u8, mask: u8, value: bool, other: u8)
    requires
        mask & other == 0,
    ensures
        with_flag(p, mask, value) & other == p & other,
{
    if value {
        assert((p | mask) & other == p & other) by (bit_vector)
            requires
                mask & other == 0,
        ;
    } else {
        assert((p & !mask) & other == p & other) by (bit_vector)
            requires
                mask & other == 0,
        ;
    }
}

/// Which bits a status update leaves alone: every flag outside the updated
/// one keeps its value, and the updated one reads back as written.
pub proof fn lemma_flag_update(p: u8, mask: u8, value: bool)
    requires
        mask == CARRY || mask == ZERO || mask == INT_DISABLE || mask == DECIMAL || mask == BREAK
            || mask == RESERVED || mask == OVERFLOW || mask == NEGATIVE,
    ensures
        flag_set(with_flag(p, mask, value), mask) == value,
        forall|other: u8|
            (other == CARRY || other == ZERO || other == INT_DISABLE || other == DECIMAL || other
                == BREAK || other == RESERVED || other == OVERFLOW || other == NEGATIVE) && other
                != mask ==> #[trigger] flag_set(with_flag(p, mask, value), other) == flag_set(p, other),
{
    lemma_flag_read_back(p, mask, value);
    assert forall|other: u8|
        (other == CARRY || other == ZERO || other == INT_DISABLE || other == DECIMAL || other == BREAK
            || other == RESERVED || other == OVERFLOW || other == NEGATIVE) && other != mask implies
        #[trigger] flag_set(with_flag(p, mask, value), other) == flag_set(p, other) by {
        assert(mask & other == 0) by (bit_vector)
            requires
                mask == 1 || mask == 2 || mask == 4 || mask == 8 || mask == 16 || mask == 32 || mask
                    == 64 || mask == 128,
                other == 1 || other == 2 || other == 4 || other == 8 || other == 16 || other == 32
                    || other == 64 || other == 128,
                other != mask,
        ;
        lemma_flag_other_bits(p, mask, value, other);
    }
}

/// N and Z after `with_nz`, and every other flag kept.
pub proof fn lemma_nz_update(p: u8, value: u8)
    ensures
        flag_set(with_nz(p, value), NEGATIVE) == (value >= 0x80),
        flag_set(with_nz(p, value), ZERO) == (value == 0),
        flag_set(with_nz(p, value), CARRY) == flag_set(p, CARRY),
        flag_set(with_nz(p, value), INT_DISABLE) == flag_set(p, INT_DISABLE),
        flag_set(with_nz(p, value), DECIMAL) == flag_set(p, DECIMAL),
        flag_set(with_nz(p, value), BREAK) == flag_set(p, BREAK),
        flag_set(with_nz(p, value), RESERVED) == flag_set(p, RESERVED),
        flag_set(with_nz(p, value), OVERFLOW) == flag_set(p, OVERFLOW),
{
    lemma_flag_update(p, NEGATIVE, value >= 0x80);
    lemma_flag_update(with_flag(p, NEGATIVE, value >= 0x80), ZERO, value == 0);
}

} // verus!
