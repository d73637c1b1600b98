use rusty_chip::display::Display;
use rusty_chip::util::{get_bit_val, DISPLAY_HEIGHT, DISPLAY_WIDTH};

#[test]
fn dimensions_are_64_by_32() {
    assert_eq!(DISPLAY_WIDTH, 64);
    assert_eq!(DISPLAY_HEIGHT, 32);
}

#[test]
fn fresh_display_is_blank() {
    let display = Display::new();
    for x in 0..DISPLAY_WIDTH {
        for y in 0..DISPLAY_HEIGHT {
            assert_eq!(display.get_pixel(x, y), 0);
        }
    }
}

#[test]
fn set_pixel_combines_by_xor() {
    let mut display = Display::new();
    assert!(!display.set_pixel(3, 4, 1));
    assert_eq!(display.get_pixel(3, 4), 1);
    assert!(!display.set_pixel(3, 4, 0));
    assert_eq!(display.get_pixel(3, 4), 1);
    assert!(display.set_pixel(3, 4, 1));
    assert_eq!(display.get_pixel(3, 4), 0);
    assert!(!display.set_pixel(3, 4, 0));
    assert_eq!(display.get_pixel(3, 4), 0);
}

#[test]
fn set_pixel_touches_one_cell_only() {
    let mut display = Display::new();
    display.set_pixel(63, 31, 1);
    for x in 0..DISPLAY_WIDTH {
        for y in 0..DISPLAY_HEIGHT {
            let expected: u8 = if x == 63 && y == 31 { 1 } else { 0 };
            assert_eq!(display.get_pixel(x, y), expected);
        }
    }
}

#[test]
fn set_pixel_reports_only_set_to_unset() {
    let mut display = Display::new();
    display.set_pixel(0, 0, 2);
    assert_eq!(display.get_pixel(0, 0), 2);
    assert!(!display.set_pixel(0, 0, 2));
    assert_eq!(display.get_pixel(0, 0), 0);
    display.set_pixel(1, 1, 1);
    assert!(!display.set_pixel(1, 1, 2));
    assert_eq!(display.get_pixel(1, 1), 3);
}

#[test]
fn clear_unsets_every_pixel() {
    let mut display = Display::new();
    for x in 0..DISPLAY_WIDTH {
        for y in 0..DISPLAY_HEIGHT {
            display.set_pixel(x, y, 1);
        }
    }
    assert_eq!(display.get_pixel(10, 10), 1);
    display.clear_screen();
    for x in 0..DISPLAY_WIDTH {
        for y in 0..DISPLAY_HEIGHT {
            assert_eq!(display.get_pixel(x, y), 0);
        }
    }
}

#[test]
fn screen_state_is_read_column_first() {
    let mut display = Display::new();
    display.set_pixel(5, 7, 1);
    let state = display.get_screen_state();
    assert_eq!(state.len(), 64);
    assert_eq!(state[0].len(), 32);
    assert_eq!(state[5][7], 1);
    assert_eq!(state[7][5], 0);
}

#[test]
fn bits_are_counted_from_the_least_significant() {
    assert_eq!(get_bit_val(0b1000_0000, 7), 1);
    assert_eq!(get_bit_val(0b1000_0000, 6), 0);
    assert_eq!(get_bit_val(0b0000_0001, 0), 1);
    assert_eq!(get_bit_val(0b0000_0001, 1), 0);
    assert_eq!(get_bit_val(0xF0, 4), 1);
    assert_eq!(get_bit_val(0xF0, 3), 0);
    for index in 0..8u8 {
        assert_eq!(get_bit_val(0xFF, index), 1);
        assert_eq!(get_bit_val(0x00, index), 0);
    }
}
