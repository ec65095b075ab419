//! Main memory: a flat buffer of bytes that holds code and data.

use crate::word::{overlay, read_word, word_at, write_bytes};
use crate::{uxsize, MAP_START, SECTOR_SIZE};
use vstd::prelude::*;

verus! {

/// Main memory. Offsets run from 0 to the length of `bytes`.
#[derive(Clone, Debug, PartialEq, Eq)]
pub struct Memory {
    pub bytes: Vec<u8>,
}

impl View for Memory {
    type V = Seq<u8>;

    open spec fn view(&self) -> Seq<u8> {
        self.bytes@
    }
}

/// `n` bytes that are all zero.
pub open spec fn zeros(n: nat) -> Seq<u8> {
    Seq::new(n, |i: int| 0u8)
}

impl Memory {
    /// A memory of `words` words, all zero, unless its size in bytes does not
    /// fit the host's address range.
    pub fn new(words: usize) -> (memory: Option<Memory>)
        ensures
            words * 8 <= usize::MAX <==> memory is Some,
            memory matches Some(m) ==> m@ == zeros((words * 8) as nat),
    {
        match words.checked_mul(8) {
            Some(n) => {
                let bytes: Vec<u8> = vec![0u8; n];
                assert(bytes@ =~= zeros(n as nat));
                Some(Memory { bytes })
            },
            None => None,
        }
    }

    /// Number of bytes.
    pub fn len(&self) -> (n: usize)
        ensures
            n == self@.len(),
    {
        self.bytes.len()
    }

    /// The word at `addr`, which need not be aligned.
    pub fn get_code(&self, addr: usize) -> (word: uxsize)
        requires
            addr + 8 <= self@.len(),
        ensures
            word == word_at(self@, addr as int),
    {
        read_word(self.bytes.as_slice(), addr)
    }

    /// The byte at `addr`.
    pub fn read_byte(&self, addr: usize) -> (val: u8)
        requires
            addr < self@.len(),
        ensures
            val == self@[addr as int],
    {
        self.bytes[addr]
    }

    /// Stores `val` at `addr`.
    pub fn write_byte(&mut self, addr: usize, val: u8)
        requires
            addr < old(self)@.len(),
        ensures
            final(self)@ == old(self)@.update(addr as int, val),
    {
        self.bytes[addr] = val;
    }

    /// All bytes, for reading.
    pub fn data(&self) -> (bytes: &[u8])
        ensures
            bytes@ == self@,
    {
        self.bytes.as_slice()
    }

    /// All bytes, for writing in place.
    pub fn data_mut(&mut self) -> (bytes: &mut [u8])
        ensures
            bytes@ == old(self)@,
            final(bytes)@ == final(self)@,
    {
        self.bytes.as_mut_slice()
    }

    /// Copies a program image to the start of memory.
    pub fn load(&mut self, image: &[u8])
        requires
            image@.len() <= old(self)@.len(),
        ensures
            final(self)@ == overlay(old(self)@, 0, image@),
    {
        write_bytes(&mut self.bytes, 0, image);
    }

    /// Copies `data` into memory from `addr` on.
    pub fn copy_in(&mut self, addr: usize, data: &[u8])
        requires
            addr + data@.len() <= old(self)@.len(),
        ensures
            final(self)@ == overlay(old(self)@, addr as int, data@),
    {
        write_bytes(&mut self.bytes, addr, data);
    }

    /// A copy of the `len` bytes of memory that start at `addr`.
    pub fn range(&self, addr: usize, len: usize) -> (data: Vec<u8>)
        requires
            addr + len <= self@.len(),
        ensures
            data@ == self@.subrange(addr as int, addr + len),
    {
        let mut data: Vec<u8> = Vec::with_capacity(len);
        let mut i: usize = 0;
        while i < len
            invariant
                i <= len,
                addr + len <= self.bytes.len(),
                data@ == self@.subrange(addr as int, addr + i),
            decreases len - i,
        {
            data.push(self.bytes[addr + i]);
            i = i + 1;
        }
        data
    }

    /// A copy of the sector-sized range of memory that starts at `addr`.
    pub fn sector(&self, addr: usize) -> (data: Vec<u8>)
        requires
            addr + SECTOR_SIZE <= self@.len(),
        ensures
            data@ == self@.subrange(addr as int, addr + SECTOR_SIZE),
    {
        self.range(addr, SECTOR_SIZE)
    }
}

/// A byte stored in main memory is the byte read back from its address, and
/// the store changes no other byte.
pub proof fn lemma_write_then_read(memory: Seq<u8>, a: uxsize, v: u8)
    requires
        a < MAP_START,
        a < memory.len(),
    ensures
        memory.update(a as int, v)[a as int] == v,
        memory.update(a as int, v).len() == memory.len(),
        forall|b: int| 0 <= b < memory.len() && b != a ==> memory.update(a as int, v)[b] == memory[b],
{
}

} // verus!
