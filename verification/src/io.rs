use vstd::prelude::*;

verus! {

/// The 6510's on-chip I/O port: a data-direction register (at address 0x0000)
/// and a data register (at address 0x0001).
#[derive(Clone, Copy, PartialEq, Eq, Debug, Structural)]
pub struct IoPort {
    direction: u8,
    value: u8,
}

impl View for IoPort {
    /// (data direction, data value)
    type V = (u8, u8);

    closed spec fn view(&self) -> (u8, u8) {
        (self.direction, self.value)
    }
}

impl IoPort {
    pub fn new(direction: u8, value: u8) -> (port: IoPort)
        ensures
            port@ == (direction, value),
    {
        IoPort { direction, value }
    }

    pub fn get_direction(&self) -> (d: u8)
        ensures
            d == self@.0,
    {
        self.direction
    }

    pub fn get_value(&self) -> (v: u8)
        ensures
            v == self@.1,
    {
        self.value
    }

    pub fn set_direction(&mut self, direction: u8)
        ensures
            final(self)@ == (direction, old(self)@.1),
    {
        self.direction = direction;
    }

    pub fn set_value(&mut self, value: u8)
        ensures
            final(self)@ == (old(self)@.0, value),
    {
        self.value = value;
    }
}

/// An interrupt request line shared by several sources, each holding one bit
/// of the line's signal. The line is low (asserted) while any source holds it.
#[derive(Clone, Copy, PartialEq, Eq, Debug, Structural)]
pub struct IrqLine {
    signal: u8,
}

impl View for IrqLine {
    /// The bits of the sources that hold the line low.
    type V = u8;

    closed spec fn view(&self) -> u8 {
        self.signal
    }
}

impl IrqLine {
    /// A line that no source holds.
    pub fn new() -> (line: IrqLine)
        ensures
            line@ == 0,
    {
        IrqLine { signal: 0 }
    }

    /// Whether any source holds the line low.
    pub fn is_low(&self) -> (low: bool)
        ensures
            low == (self@ != 0),
    {
        self.signal != 0
    }

    /// Release the line for every source.
    pub fn reset(&mut self)
        ensures
            final(self)@ == 0,
    {
        self.signal = 0;
    }

    /// Source `source` (0 to 7) holds (`low`) or releases the line.
    pub fn set_low(&mut self, source: u8, low: bool)
        requires
            source < 8,
        ensures
            final(self)@ == (if low {
                old(self)@ | (1u8 << source)
            } else {
                old(self)@ & !(1u8 << source)
            }),
    {
        let bit: u8 = 1u8 << source;
        if low {
            self.signal = self.signal | bit;
        } else {
            self.signal = self.signal & !bit;
        }
    }
}

} // verus!
