//! The flat 64 KiB address space the CPU fetches its instructions from.
use vstd::prelude::*;

verus! {

/// Number of bytes in the address space.
pub const MEMORY_SIZE: usize = 0x10000;

pub struct Memory {
    data: [u8; 0x10000],
}

impl View for Memory {
    type V = Seq<u8>;

    closed spec fn view(&self) -> Seq<u8> {
        self.data@
    }
}

impl Memory {
    /// Every address of the space is backed by a byte.
    pub proof fn lemma_len(&self)
        ensures
            self@.len() == MEMORY_SIZE,
    {
    }

    pub fn new() -> (m: Self)
        ensures
            m@ == Seq::new(MEMORY_SIZE as nat, |i: int| 0u8),
    {
        let m = Memory { data: [0u8; 0x10000] };
        assert(m@ =~= Seq::new(MEMORY_SIZE as nat, |i: int| 0u8));
        m
    }

    pub fn read_byte(&self, addr: u16) -> (r: u8)
        ensures
            r == self@[addr as int],
    {
        self.data[addr as usize]
    }

    pub fn write_byte(&mut self, addr: u16, value: u8)
        ensures
            final(self)@ == old(self)@.update(addr as int, value),
    {
        self.data[addr as usize] = value;
    }
}

/// A byte written to an address is read back from it, and every other
/// address keeps its byte.
pub proof fn lemma_read_after_write(mem: Seq<u8>, addr: u16, other: u16, value: u8)
    requires
        mem.len() == MEMORY_SIZE,
    ensures
        mem.update(addr as int, value)[addr as int] == value,
        other != addr ==> mem.update(addr as int, value)[other as int] == mem[other as int],
        mem.update(addr as int, value).len() == MEMORY_SIZE,
{
}

} // verus!
