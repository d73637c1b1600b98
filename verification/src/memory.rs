//! The 4 KiB address space, with the glyphs at its lowest addresses.
use vstd::prelude::*;
use crate::rom::Rom;
use crate::util::FONTS;

verus! {

/// Number of addressable bytes.
pub const MEMORY_SIZE: usize = 0x1000;

/// Address at which a program's first byte is placed.
pub const PROGRAM_START: usize = 0x200;

/// Number of bytes between the program's first address and the end of memory.
pub const PROGRAM_CAPACITY: usize = 0xE00;

/// The flat byte store of the machine.
pub struct Memory {
    data: [u8; 0x1000],
}

/// What a fresh memory holds: the glyph table first, then zeros.
pub open spec fn initial_memory() -> Seq<u8> {
    Seq::new(0x1000, |a: int| if 0 <= a < 80 { FONTS@[a] } else { 0u8 })
}

/// Memory `mem` with `program` copied in from address 0x200 on; every other
/// cell, the glyph table among them, keeps its byte.
pub open spec fn with_program(mem: Seq<u8>, program: Seq<u8>) -> Seq<u8> {
    Seq::new(
        0x1000,
        |a: int| if 0x200 <= a < 0x200 + program.len() { program[a - 0x200] } else { mem[a] },
    )
}

impl View for Memory {
    type V = Seq<u8>;

    closed spec fn view(&self) -> Seq<u8> {
        self.data@
    }
}

impl Memory {
    /// A memory always has 4096 cells.
    pub proof fn lemma_size(&self)
        ensures
            self@.len() == 0x1000,
    {
    }

    /// Zero-filled memory with the glyph table written from address 0.
    pub fn new() -> (m: Self)
        ensures
            m@ == initial_memory(),
    {
        let mut data: [u8; 0x1000] = [0; 0x1000];
        let mut i: usize = 0;
        while i < 80
            invariant
                i <= 80,
                forall|a: int| 0 <= a < i ==> data@[a] == FONTS@[a],
                forall|a: int| i <= a < 0x1000 ==> data@[a] == 0,
            decreases 80 - i,
        {
            data[i] = FONTS[i];
            i += 1;
        }
        assert(data@ =~= initial_memory());
        Memory { data }
    }

    /// The byte at `addr`.
    pub fn read(&self, addr: u16) -> (byte: u8)
        requires
            addr < 0x1000,
        ensures
            byte == self@[addr as int],
    {
        self.data[addr as usize]
    }

    /// Stores `data` at `addr`; every other cell keeps its byte.
    pub fn write(&mut self, addr: u16, data: u8)
        requires
            addr < 0x1000,
        ensures
            final(self)@ == old(self)@.update(addr as int, data),
    {
        self.data[addr as usize] = data;
    }

    /// Copies the program into memory, its first byte at address 0x200.
    pub fn load_program(&mut self, rom: Rom)
        requires
            rom@.len() <= 0xE00,
        ensures
            final(self)@ == with_program(old(self)@, rom@),
    {
        let size: usize = rom.get_size();
        let mut i: usize = 0;
        while i < size
            invariant
                i <= size,
                size == rom@.len(),
                size <= 0xE00,
                self@ == with_program(old(self)@, rom@.take(i as int)),
            decreases size - i,
        {
            self.data[0x200 + i] = rom.get_byte(i);
            i += 1;
            assert(self@ =~= with_program(old(self)@, rom@.take(i as int)));
        }
        assert(rom@.take(size as int) =~= rom@);
    }
}

} // verus!
