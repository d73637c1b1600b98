use rusty_chip::keyboard::{Keyboard, KEY_COUNT};

#[test]
fn fresh_pad_has_no_key_pressed() {
    let mut keys = Keyboard::new();
    assert_eq!(KEY_COUNT, 16);
    for key in 0..16u8 {
        assert!(!keys.is_pressed(key));
    }
    assert_eq!(keys.get_pressed(), None);
}

#[test]
fn press_and_release_change_one_key() {
    let mut keys = Keyboard::new();
    keys.press_key(0xA);
    for key in 0..16u8 {
        assert_eq!(keys.is_pressed(key), key == 0xA);
    }
    keys.press_key(0xA);
    assert!(keys.is_pressed(0xA));
    keys.release_key(0xA);
    assert!(!keys.is_pressed(0xA));
    keys.release_key(0xA);
    assert!(!keys.is_pressed(0xA));
}

#[test]
fn taking_a_key_releases_it() {
    let mut keys = Keyboard::new();
    keys.press_key(9);
    assert_eq!(keys.get_pressed(), Some(9));
    assert!(!keys.is_pressed(9));
    assert_eq!(keys.get_pressed(), None);
}

#[test]
fn lowest_pressed_key_is_taken_first() {
    let mut keys = Keyboard::new();
    keys.press_key(0xF);
    keys.press_key(3);
    keys.press_key(7);
    assert_eq!(keys.get_pressed(), Some(3));
    assert!(keys.is_pressed(7));
    assert!(keys.is_pressed(0xF));
    assert_eq!(keys.get_pressed(), Some(7));
    assert_eq!(keys.get_pressed(), Some(0xF));
    assert_eq!(keys.get_pressed(), None);
}

#[test]
fn first_and_last_key_can_be_taken() {
    let mut keys = Keyboard::new();
    keys.press_key(0);
    assert_eq!(keys.get_pressed(), Some(0));
    keys.press_key(15);
    assert_eq!(keys.get_pressed(), Some(15));
}
