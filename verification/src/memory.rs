//! A word-addressed model of the machine's address space.

use vstd::prelude::*;

verus! {

/// The address space as a sequence of 32-bit storage units: non-volatile
/// storage and working memory side by side, unit `i` at address `i`.
pub struct Memory {
    words: Vec<u32>,
}

impl View for Memory {
    type V = Seq<u32>;

    closed spec fn view(&self) -> Seq<u32> {
        self.words@
    }
}

impl Memory {
    /// A memory that holds `words`, the first at address 0.
    pub fn from_words(words: Vec<u32>) -> (memory: Memory)
        ensures
            memory@ == words@,
    {
        Memory { words }
    }

    /// The number of storage units.
    pub fn len(&self) -> (n: usize)
        ensures
            n == self@.len(),
    {
        self.words.len()
    }

    /// The unit at `addr`, if the address exists.
    pub fn read(&self, addr: usize) -> (value: Option<u32>)
        ensures
            addr < self@.len() ==> value == Some(self@[addr as int]),
            addr >= self@.len() ==> value is None,
    {
        if addr < self.words.len() {
            Some(self.words[addr])
        } else {
            None
        }
    }

    /// Stores `value` at `addr` and reports whether the address exists; a
    /// store to an address that does not exist changes nothing.
    pub fn write(&mut self, addr: usize, value: u32) -> (stored: bool)
        ensures
            stored == (addr < old(self)@.len()),
            stored ==> final(self)@ == old(self)@.update(addr as int, value),
            !stored ==> final(self)@ == old(self)@,
    {
        if addr < self.words.len() {
            self.words.set(addr, value);
            true
        } else {
            false
        }
    }

    /// The contents, the unit of address 0 first.
    pub fn into_words(self) -> (words: Vec<u32>)
        ensures
            words@ == self@,
    {
        self.words
    }
}

} // verus!
