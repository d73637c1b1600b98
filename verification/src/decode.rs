//! Taking an instruction word apart. An instruction is sixteen bits: the
//! family in the top four, then the fields X and Y of four bits each, and N,
//! NN and NNN as the low four, eight and twelve bits.
use vstd::prelude::*;
use crate::machine::{family, field_n, field_nn, field_nnn, field_x, field_y, word};

verus! {

/// The family of `instr`: its top four bits.
pub fn opcode_family(instr: u16) -> (f: u16)
    ensures
        f == family(instr),
        f < 16,
{
    assert((instr >> 12) & 0xF == instr / 0x1000 && (instr >> 12) & 0xF < 16) by (bit_vector);
    (instr >> 12) & 0xF
}

/// The register X of `instr`: bits 8 to 11.
pub fn register_x(instr: u16) -> (x: usize)
    ensures
        x == field_x(instr),
        x < 16,
{
    assert((instr >> 8) & 0xF == (instr / 0x100) % 0x10) by (bit_vector);
    ((instr >> 8) & 0xF) as usize
}

/// The register Y of `instr`: bits 4 to 7.
pub fn register_y(instr: u16) -> (y: usize)
    ensures
        y == field_y(instr),
        y < 16,
{
    assert((instr >> 4) & 0xF == (instr / 0x10) % 0x10) by (bit_vector);
    ((instr >> 4) & 0xF) as usize
}

/// The field N of `instr`: its low four bits.
pub fn low_nibble(instr: u16) -> (n: u16)
    ensures
        n == field_n(instr),
        n < 16,
{
    assert(instr & 0xF == instr % 0x10) by (bit_vector);
    instr & 0xF
}

/// The field NN of `instr`: its low byte.
pub fn immediate(instr: u16) -> (nn: u8)
    ensures
        nn == field_nn(instr),
{
    assert(instr & 0xFF == instr % 0x100) by (bit_vector);
    (instr & 0xFF) as u8
}

/// The field NNN of `instr`: its low twelve bits.
pub fn address(instr: u16) -> (nnn: u16)
    ensures
        nnn == field_nnn(instr),
        nnn < 0x1000,
{
    assert(instr & 0xFFF == instr % 0x1000) by (bit_vector);
    instr & 0xFFF
}

/// The instruction word whose high byte is `hi` and whose low byte is `lo`.
pub fn instruction_word(hi: u8, lo: u8) -> (instr: u16)
    ensures
        instr == word(hi, lo),
{
    let h: u16 = hi as u16;
    let l: u16 = lo as u16;
    assert(h < 0x100 && l < 0x100 ==> (h << 8) | l == h * 0x100 + l) by (bit_vector);
    (h << 8) | l
}

} // verus!
