use vstd::prelude::*;

verus! {

/// The system bus behind the CPU: what a read of an address returns and what
/// a write does. A memory controller of a real machine maps ROM, RAM and I/O
/// into the address space; the CPU only reads and writes through it.
pub trait MemoryController {
    /// What a read of `address` returns in the controller's current state.
    spec fn peek(&self, address: u16) -> u8;

    /// Whether `address` behaves as RAM in the controller's current state: a
    /// write there is read back at that address, changes what no other
    /// address reads, and leaves which addresses are RAM as it was. (On a C64
    /// the stack page is RAM in every memory configuration; ROM and I/O
    /// areas are not.)
    spec fn is_ram(&self, address: u16) -> bool;

    fn read(&self, address: u16) -> (value: u8)
        ensures
            value == self.peek(address),
    ;

    fn write(&mut self, address: u16, value: u8)
        ensures
            old(self).is_ram(address) ==> forall|a: u16|
                #[trigger] final(self).peek(a) == (if a == address {
                    value
                } else {
                    old(self).peek(a)
                }),
            old(self).is_ram(address) ==> forall|a: u16| #[trigger]
                final(self).is_ram(a) == old(self).is_ram(a),
    ;
}

/// What a read of `address` returns from `mem` once the writes `ws` (in
/// order) have been stored in it, when every write goes to RAM.
pub open spec fn mem_after<M: MemoryController>(mem: M, ws: Seq<(u16, u8)>, address: u16) -> u8
    decreases ws.len(),
{
    if ws.len() == 0 {
        mem.peek(address)
    } else if ws.last().0 == address {
        ws.last().1
    } else {
        mem_after(mem, ws.drop_last(), address)
    }
}

/// Replaying two runs of writes one after the other is replaying their concatenation.
pub proof fn lemma_mem_after_concat<M: MemoryController>(
    m0: M,
    m1: M,
    w1: Seq<(u16, u8)>,
    w2: Seq<(u16, u8)>,
    address: u16,
)
    requires
        forall|a: u16| #[trigger] m1.peek(a) == mem_after(m0, w1, a),
    ensures
        mem_after(m1, w2, address) == mem_after(m0, w1 + w2, address),
    decreases w2.len(),
{
    if w2.len() == 0 {
        assert(w1 + w2 =~= w1);
    } else {
        assert((w1 + w2).drop_last() =~= w1 + w2.drop_last());
        assert((w1 + w2).last() == w2.last());
        lemma_mem_after_concat(m0, m1, w1, w2.drop_last(), address);
    }
}

/// Flat RAM filling the whole 64 KiB address space.
pub struct Ram {
    data: Vec<u8>,
}

impl Ram {
    /// A RAM of 64 KiB, every byte zero.
    pub fn new() -> (ram: Ram)
        ensures
            forall|a: u16| #[trigger] ram.is_ram(a),
            forall|a: u16| #[trigger] ram.peek(a) == 0,
    {
        let mut data: Vec<u8> = Vec::new();
        while data.len() < 0x10000
            invariant
                data.len() <= 0x10000,
                forall|i: int| 0 <= i < data.len() ==> data@[i] == 0,
            decreases 0x10000 - data.len(),
        {
            data.push(0);
        }
        Ram { data }
    }
}

impl MemoryController for Ram {
    closed spec fn peek(&self, address: u16) -> u8 {
        if (address as int) < self.data.len() {
            self.data@[address as int]
        } else {
            0
        }
    }

    /// A `Ram` holds a byte for every address; `new` makes no other kind.
    closed spec fn is_ram(&self, address: u16) -> bool {
        self.data.len() == 0x10000
    }

    fn read(&self, address: u16) -> (value: u8) {
        if (address as usize) < self.data.len() {
            self.data[address as usize]
        } else {
            0
        }
    }

    fn write(&mut self, address: u16, value: u8) {
        if (address as usize) < self.data.len() {
            self.data.set(address as usize, value);
        }
    }
}

} // verus!
