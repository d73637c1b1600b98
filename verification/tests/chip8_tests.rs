use rusty_chip::chip8::{map_key, Chip8, FrameEnd, HostEvent, HostKey, CYCLES_PER_FRAME};
use rusty_chip::fault::Fault;
use rusty_chip::rom::Rom;

fn boot(program: &[u8]) -> Chip8 {
    let mut chip = Chip8::new();
    chip.load_rom(Rom::new(program.to_vec()));
    chip
}

#[test]
fn fresh_machine_is_blank_and_at_0x200() {
    let chip = Chip8::new();
    assert_eq!(chip.cpu().program_counter(), 0x200);
    assert_eq!(chip.cpu().memory_byte(0), 0xF0);
    assert_eq!(chip.cpu().memory_byte(0x200), 0);
    assert!(chip.lit_pixels().is_empty());
    for key in 0..16u8 {
        assert!(!chip.cpu().is_key_pressed(key));
    }
}

#[test]
fn rom_is_loaded_at_0x200() {
    let chip = boot(&[0x12, 0x34, 0x56]);
    assert_eq!(chip.cpu().memory_byte(0x200), 0x12);
    assert_eq!(chip.cpu().memory_byte(0x201), 0x34);
    assert_eq!(chip.cpu().memory_byte(0x202), 0x56);
    assert_eq!(chip.cpu().memory_byte(0x203), 0);
    assert_eq!(chip.cpu().memory_byte(4), 0xF0);
}

#[test]
fn host_keys_stand_for_pad_keys() {
    assert_eq!(map_key(HostKey::X), Some(0x0));
    assert_eq!(map_key(HostKey::Num1), Some(0x1));
    assert_eq!(map_key(HostKey::Num2), Some(0x2));
    assert_eq!(map_key(HostKey::Num3), Some(0x3));
    assert_eq!(map_key(HostKey::Q), Some(0x4));
    assert_eq!(map_key(HostKey::W), Some(0x5));
    assert_eq!(map_key(HostKey::E), Some(0x6));
    assert_eq!(map_key(HostKey::A), Some(0x7));
    assert_eq!(map_key(HostKey::S), Some(0x8));
    assert_eq!(map_key(HostKey::D), Some(0x9));
    assert_eq!(map_key(HostKey::Z), Some(0xA));
    assert_eq!(map_key(HostKey::C), Some(0xB));
    assert_eq!(map_key(HostKey::Num4), Some(0xC));
    assert_eq!(map_key(HostKey::R), Some(0xD));
    assert_eq!(map_key(HostKey::F), Some(0xE));
    assert_eq!(map_key(HostKey::V), Some(0xF));
    assert_eq!(map_key(HostKey::Escape), None);
    assert_eq!(map_key(HostKey::Other), None);
}

#[test]
fn key_events_press_and_release() {
    let mut chip = Chip8::new();
    assert!(!chip.handle_event(HostEvent::KeyDown(HostKey::Q)));
    assert!(chip.cpu().is_key_pressed(4));
    assert!(!chip.handle_event(HostEvent::KeyDown(HostKey::V)));
    assert!(chip.cpu().is_key_pressed(0xF));
    assert!(!chip.handle_event(HostEvent::KeyUp(HostKey::Q)));
    assert!(!chip.cpu().is_key_pressed(4));
    assert!(chip.cpu().is_key_pressed(0xF));
}

#[test]
fn other_events_change_nothing() {
    let mut chip = Chip8::new();
    assert!(!chip.handle_event(HostEvent::Other));
    assert!(!chip.handle_event(HostEvent::KeyDown(HostKey::Other)));
    assert!(!chip.handle_event(HostEvent::KeyUp(HostKey::Other)));
    assert!(!chip.handle_event(HostEvent::KeyUp(HostKey::Escape)));
    for key in 0..16u8 {
        assert!(!chip.cpu().is_key_pressed(key));
    }
}

#[test]
fn quit_and_escape_end_the_session() {
    let mut chip = Chip8::new();
    assert!(chip.handle_event(HostEvent::Quit));
    assert!(chip.handle_event(HostEvent::KeyDown(HostKey::Escape)));
}

#[test]
fn events_after_the_end_are_not_taken_in() {
    let mut chip = Chip8::new();
    let events = vec![
        HostEvent::KeyDown(HostKey::Num1),
        HostEvent::Quit,
        HostEvent::KeyDown(HostKey::Num2),
    ];
    assert!(chip.handle_events(&events));
    assert!(chip.cpu().is_key_pressed(1));
    assert!(!chip.cpu().is_key_pressed(2));
}

#[test]
fn events_are_taken_in_order() {
    let mut chip = Chip8::new();
    let events = vec![
        HostEvent::KeyDown(HostKey::A),
        HostEvent::KeyUp(HostKey::A),
        HostEvent::KeyUp(HostKey::S),
        HostEvent::KeyDown(HostKey::S),
        HostEvent::Other,
    ];
    assert!(!chip.handle_events(&events));
    assert!(!chip.cpu().is_key_pressed(7));
    assert!(chip.cpu().is_key_pressed(8));
    assert!(!chip.handle_events(&Vec::new()));
}

#[test]
fn a_frame_runs_ten_instructions() {
    let mut chip = boot(&[0x70, 0x01, 0x12, 0x00]);
    assert_eq!(CYCLES_PER_FRAME, 10);
    assert_eq!(chip.run_frame(&Vec::new()), Ok(FrameEnd::Present));
    assert_eq!(chip.cpu().register(0), 5);
    assert_eq!(chip.run_frame(&Vec::new()), Ok(FrameEnd::Present));
    assert_eq!(chip.cpu().register(0), 10);
}

#[test]
fn a_frame_lowers_the_delay_timer_once() {
    let mut chip = boot(&[0x60, 0x05, 0xF0, 0x15, 0x12, 0x04]);
    assert_eq!(chip.run_frame(&Vec::new()), Ok(FrameEnd::Present));
    assert_eq!(chip.cpu().delay_timer(), 5);
    assert_eq!(chip.run_frame(&Vec::new()), Ok(FrameEnd::Present));
    assert_eq!(chip.cpu().delay_timer(), 4);
    for _ in 0..10 {
        assert_eq!(chip.run_frame(&Vec::new()), Ok(FrameEnd::Present));
    }
    assert_eq!(chip.cpu().delay_timer(), 0);
}

#[test]
fn a_frame_takes_its_events_in_before_it_runs() {
    let mut chip = boot(&[0xF3, 0x0A, 0x12, 0x02]);
    assert_eq!(chip.run_frame(&Vec::new()), Ok(FrameEnd::Present));
    assert!(chip.cpu().is_halted());
    assert_eq!(chip.cpu().program_counter(), 0x202);
    assert_eq!(chip.run_frame(&vec![HostEvent::KeyDown(HostKey::W)]), Ok(FrameEnd::Present));
    assert!(!chip.cpu().is_halted());
    assert_eq!(chip.cpu().register(3), 5);
    assert!(!chip.cpu().is_key_pressed(5));
}

#[test]
fn a_frame_that_is_told_to_quit_runs_nothing() {
    let mut chip = boot(&[0x60, 0x05, 0xF0, 0x15, 0x70, 0x01, 0x12, 0x04]);
    assert_eq!(chip.run_frame(&Vec::new()), Ok(FrameEnd::Present));
    let pc = chip.cpu().program_counter();
    let v0 = chip.cpu().register(0);
    assert_eq!(chip.cpu().delay_timer(), 5);
    let events = vec![HostEvent::KeyDown(HostKey::Z), HostEvent::KeyDown(HostKey::Escape)];
    assert_eq!(chip.run_frame(&events), Ok(FrameEnd::Quit));
    assert_eq!(chip.cpu().program_counter(), pc);
    assert_eq!(chip.cpu().register(0), v0);
    assert_eq!(chip.cpu().delay_timer(), 4);
    assert!(chip.cpu().is_key_pressed(0xA));
}

#[test]
fn a_frame_ends_at_a_fault() {
    let mut chip = boot(&[0x60, 0x01, 0x00, 0xEE]);
    assert_eq!(chip.run_frame(&Vec::new()), Err(Fault::StackUnderflow));
    assert_eq!(chip.cpu().register(0), 1);
    assert_eq!(chip.cpu().program_counter(), 0x202);
}

#[test]
fn lit_pixels_come_row_by_row() {
    let mut chip = boot(&[0xD0, 0x15, 0x12, 0x02]);
    assert_eq!(chip.run_frame(&Vec::new()), Ok(FrameEnd::Present));
    let expected: Vec<(usize, usize)> = vec![
        (0, 0),
        (1, 0),
        (2, 0),
        (3, 0),
        (0, 1),
        (3, 1),
        (0, 2),
        (3, 2),
        (0, 3),
        (3, 3),
        (0, 4),
        (1, 4),
        (2, 4),
        (3, 4),
    ];
    assert_eq!(chip.lit_pixels(), expected);
}

#[test]
fn lit_pixels_reach_the_last_cell() {
    let mut chip = boot(&[0x60, 56, 0x61, 31, 0xA2, 0x08, 0xD0, 0x11, 0x01, 0x00]);
    assert_eq!(chip.run_frame(&Vec::new()), Err(Fault::UnknownOpcode(0x0100)));
    assert_eq!(chip.lit_pixels(), vec![(63, 31)]);
}
