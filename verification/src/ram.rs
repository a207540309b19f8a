use vstd::prelude::*;

verus! {

/// The number of words of data memory.
pub const RAM_SIZE: usize = 24576;

/// A read gives back what the last write to the same address wrote, and a write leaves
/// every other address as it was.
pub proof fn lemma_read_after_write(mem: Seq<u16>, addr: int, other: int, val: u16)
    requires
        0 <= addr < mem.len(),
        0 <= other < mem.len(),
    ensures
        mem.update(addr, val)[addr] == val,
        other != addr ==> mem.update(addr, val)[other] == mem[other],
        mem.update(addr, val).len() == mem.len(),
{
}

/// The data memory of the Hack computer: `RAM_SIZE` words, all zero at first.
pub struct Ram {
    mem: Vec<u16>,
}

impl View for Ram {
    type V = Seq<u16>;

    closed spec fn view(&self) -> Seq<u16> {
        self.mem@
    }
}

impl Ram {
    /// Well-formedness: the memory holds exactly `RAM_SIZE` words.
    pub open spec fn wf(&self) -> bool {
        self@.len() == RAM_SIZE
    }

    /// A memory of `RAM_SIZE` zero words.
    pub fn new() -> (res: Self)
        ensures
            res.wf(),
            res@ == Seq::new(RAM_SIZE as nat, |i: int| 0u16),
    {
        let mem = vec![0u16; RAM_SIZE];
        assert(mem@ =~= Seq::new(RAM_SIZE as nat, |i: int| 0u16));
        Self { mem }
    }

    /// The word at `addr`.
    pub fn read(&self, addr: u16) -> (res: u16)
        requires
            self.wf(),
            (addr as usize) < RAM_SIZE,
        ensures
            res == self@[addr as int],
    {
        self.mem[addr as usize]
    }

    /// Stores `val` at `addr`.
    pub fn write(&mut self, addr: u16, val: u16)
        requires
            old(self).wf(),
            (addr as usize) < RAM_SIZE,
        ensures
            final(self).wf(),
            final(self)@ == old(self)@.update(addr as int, val),
    {
        self.mem.set(addr as usize, val);
    }
}

} // verus!
