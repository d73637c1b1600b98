use rusty_chip::memory::{Memory, MEMORY_SIZE, PROGRAM_CAPACITY, PROGRAM_START};
use rusty_chip::rom::Rom;
use rusty_chip::util::{FONTS, FONT_BYTES, GLYPH_BYTES};

#[test]
fn glyph_zero_lies_at_address_zero() {
    let memory = Memory::new();
    let expected: [u8; 5] = [0xF0, 0x90, 0x90, 0x90, 0xF0];
    for (offset, byte) in expected.iter().enumerate() {
        assert_eq!(memory.read(offset as u16), *byte);
        assert_eq!(FONTS[offset], *byte);
    }
}

#[test]
fn glyph_table_fills_the_lowest_addresses() {
    let memory = Memory::new();
    assert_eq!(FONT_BYTES, 16 * GLYPH_BYTES);
    for addr in 0..FONT_BYTES {
        assert_eq!(memory.read(addr as u16), FONTS[addr]);
    }
    assert_eq!(memory.read(5), 0x20);
    assert_eq!(memory.read(75), 0xF0);
    assert_eq!(memory.read(79), 0x80);
}

#[test]
fn fresh_memory_is_zero_behind_the_glyphs() {
    let memory = Memory::new();
    for addr in FONT_BYTES..MEMORY_SIZE {
        assert_eq!(memory.read(addr as u16), 0);
    }
}

#[test]
fn write_changes_one_cell() {
    let mut memory = Memory::new();
    memory.write(0x300, 0xAB);
    assert_eq!(memory.read(0x300), 0xAB);
    assert_eq!(memory.read(0x2FF), 0);
    assert_eq!(memory.read(0x301), 0);
    memory.write(0xFFF, 0x12);
    assert_eq!(memory.read(0xFFF), 0x12);
    memory.write(0, 0x01);
    assert_eq!(memory.read(0), 0x01);
    assert_eq!(memory.read(1), 0x90);
}

#[test]
fn program_is_placed_from_0x200_on() {
    let mut memory = Memory::new();
    memory.load_program(Rom::new(vec![0x60, 0x05, 0x70, 0x03]));
    assert_eq!(PROGRAM_START, 0x200);
    assert_eq!(memory.read(0x1FF), 0);
    assert_eq!(memory.read(0x200), 0x60);
    assert_eq!(memory.read(0x201), 0x05);
    assert_eq!(memory.read(0x202), 0x70);
    assert_eq!(memory.read(0x203), 0x03);
    assert_eq!(memory.read(0x204), 0);
}

#[test]
fn program_load_spares_the_glyphs() {
    let mut memory = Memory::new();
    memory.load_program(Rom::new(vec![0xFF; 64]));
    for addr in 0..FONT_BYTES {
        assert_eq!(memory.read(addr as u16), FONTS[addr]);
    }
}

#[test]
fn largest_program_reaches_the_last_cell() {
    let mut image = vec![0u8; PROGRAM_CAPACITY];
    image[0] = 0x11;
    image[PROGRAM_CAPACITY - 1] = 0x99;
    let mut memory = Memory::new();
    memory.load_program(Rom::new(image));
    assert_eq!(memory.read(0x200), 0x11);
    assert_eq!(memory.read(0xFFF), 0x99);
    assert_eq!(memory.read(0x1FF), 0);
}

#[test]
fn empty_program_changes_nothing() {
    let mut memory = Memory::new();
    memory.load_program(Rom::new(Vec::new()));
    assert_eq!(memory.read(0x200), 0);
    assert_eq!(memory.read(0), 0xF0);
}

#[test]
fn rom_gives_its_bytes_and_size() {
    let rom = Rom::new(vec![1, 2, 3]);
    assert_eq!(rom.get_size(), 3);
    assert_eq!(rom.get_byte(0), 1);
    assert_eq!(rom.get_byte(1), 2);
    assert_eq!(rom.get_byte(2), 3);
    assert_eq!(Rom::new(Vec::new()).get_size(), 0);
}
