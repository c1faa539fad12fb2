use vstd::prelude::*;

verus! {

/// The memory-mapped registers of one device: 32-bit words at byte offsets
/// `0, 4, 8, ...` from the device's base address.
///
/// The block holds the value of each register as last loaded or stored;
/// the code that drives the real device copies it to and from the hardware.
pub struct RegisterBlock {
    words: Vec<u32>,
}

/// Word index of the register at byte offset `offset`.
pub open spec fn word(offset: u32) -> int {
    offset as int / 4
}

impl View for RegisterBlock {
    type V = Seq<u32>;

    /// The register values, by word index.
    closed spec fn view(&self) -> Seq<u32> {
        self.words@
    }
}

impl RegisterBlock {
    /// A block of `count` registers, all zero.
    pub fn new(count: usize) -> (r: RegisterBlock)
        ensures
            r@.len() == count,
            forall|i: int| 0 <= i < count ==> #[trigger] r@[i] == 0,
    {
        let mut words: Vec<u32> = Vec::new();
        let mut i: usize = 0;
        while i < count
            invariant
                i <= count,
                words@.len() == i,
                forall|k: int| 0 <= k < i ==> #[trigger] words@[k] == 0,
            decreases count - i,
        {
            words.push(0);
            i = i + 1;
        }
        RegisterBlock { words }
    }

    /// The value of the register at byte offset `offset`.
    pub fn load(&self, offset: u32) -> (r: u32)
        requires
            offset % 4 == 0,
            word(offset) < self@.len(),
        ensures
            r == self@[word(offset)],
    {
        self.words[(offset / 4) as usize]
    }

    /// Writes `value` to the register at byte offset `offset`.
    pub fn store(&mut self, offset: u32, value: u32)
        requires
            offset % 4 == 0,
            word(offset) < old(self)@.len(),
        ensures
            final(self)@ == old(self)@.update(word(offset), value),
    {
        self.words.set((offset / 4) as usize, value);
    }
}

/// A load gives back what the last store to the same register wrote, and a
/// store leaves every other register as it was.
pub proof fn lemma_store_load(regs: Seq<u32>, offset: u32, value: u32, other: u32)
    requires
        offset % 4 == 0,
        other % 4 == 0,
        word(offset) < regs.len(),
        word(other) < regs.len(),
    ensures
        regs.update(word(offset), value)[word(offset)] == value,
        other != offset ==> regs.update(word(offset), value)[word(other)] == regs[word(other)],
{
}

} // verus!
