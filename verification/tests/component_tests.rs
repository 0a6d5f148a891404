use chip8::display::Display;
use chip8::keyboard::Keyboard;
use chip8::memory::{BlockMemory, Memory};

#[test]
fn it_works() {
}

#[test]
fn memory_loads_rom_at_entry_point() {
    let mem = BlockMemory::new(&[0xAB, 0xCD]);
    assert_eq!(mem.read_byte(0x1FF), 0);
    assert_eq!(mem.read_byte(0x200), 0xAB);
    assert_eq!(mem.read_byte(0x201), 0xCD);
    assert_eq!(mem.read_byte(0x202), 0);
}

#[test]
fn memory_write_and_block_read() {
    let mut mem = BlockMemory::new(&[]);
    mem.write_byte(0x300, 0x11);
    mem.write_byte(0x301, 0x22);
    let block = mem.read_block(0x300, 3);
    assert_eq!(block, vec![0x11, 0x22, 0x00]);
}

#[test]
fn display_draw_sprite_twice_xors_off() {
    // On a clear canvas the first draw erases nothing; repeating it erases
    // everything it set.
    let mut display = Display::new();
    let sprite = vec![0xFF, 0x81];
    assert!(!display.draw_sprite(3, 5, &sprite));
    assert!(display.pixels[5 * 64 + 3]);
    assert!(display.draw_sprite(3, 5, &sprite));
    assert!(display.pixels.iter().all(|p| !p));
}

#[test]
fn display_wraps_at_both_edges() {
    let mut display = Display::new();
    let sprite = vec![0xC0];
    display.draw_sprite(63, 31, &sprite);
    // Bit 0 lands at (63, 31), bit 1 wraps to column 0 of the same row.
    assert!(display.pixels[31 * 64 + 63]);
    assert!(display.pixels[31 * 64]);
}

#[test]
fn display_collision_is_per_pixel() {
    let mut display = Display::new();
    display.draw_sprite(0, 0, &vec![0x80]);
    // A sprite overlapping the set pixel reports the erasure.
    assert!(display.draw_sprite(0, 0, &vec![0xC0]));
    assert!(!display.pixels[0]);
    assert!(display.pixels[1]);
}

#[test]
fn display_clear_switches_everything_off() {
    let mut display = Display::new();
    display.draw_sprite(10, 10, &vec![0xFF]);
    display.clear();
    assert!(display.pixels.iter().all(|p| !p));
}

#[test]
fn keyboard_reports_lowest_pending_key() {
    let mut keyboard = Keyboard::new();
    assert_eq!(keyboard.any_key_pressed(), None);
    keyboard.update_key_status(9, true);
    keyboard.update_key_status(4, true);
    assert_eq!(keyboard.any_key_pressed(), Some(4));
    // The pending latch clears on the read; held keys alone do not count.
    assert_eq!(keyboard.any_key_pressed(), None);
}

#[test]
fn keyboard_is_pressed_tracks_edges_and_clears_latch() {
    let mut keyboard = Keyboard::new();
    keyboard.update_key_status(2, true);
    assert!(keyboard.is_pressed(2));
    assert!(!keyboard.is_pressed(3));
    assert_eq!(keyboard.any_key_pressed(), None);
    keyboard.update_key_status(2, false);
    assert!(!keyboard.is_pressed(2));
}
