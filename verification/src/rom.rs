//! A program image: the bytes of a program, as they will lie in memory.
use vstd::prelude::*;

verus! {

/// The bytes of a program.
pub struct Rom {
    data: Vec<u8>,
}

impl View for Rom {
    type V = Seq<u8>;

    closed spec fn view(&self) -> Seq<u8> {
        self.data@
    }
}

impl Rom {
    /// The image that holds exactly `data`.
    pub fn new(data: Vec<u8>) -> (rom: Rom)
        ensures
            rom@ == data@,
    {
        Rom { data }
    }

    /// The byte at offset `addr` of the image.
    pub fn get_byte(&self, addr: usize) -> (byte: u8)
        requires
            addr < self@.len(),
        ensures
            byte == self@[addr as int],
    {
        self.data[addr]
    }

    /// The number of bytes of the image.
    pub fn get_size(&self) -> (size: usize)
        ensures
            size == self@.len(),
    {
        self.data.len()
    }
}

} // verus!
