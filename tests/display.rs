use chip8::display::Display;

#[test]
fn new_display_is_blank() {
    let display = Display::new();
    assert_eq!(display.gfx.len(), 2048);
    assert!(display.gfx.iter().all(|&p| p == 0));
}

#[test]
fn single_pixel_wraps_to_column_zero() {
    let mut display = Display::new();
    let collision = display.draw_sprite(63, 0, &[0x40]);
    assert!(!collision);
    assert_eq!(display.gfx[0], 1);
    assert_eq!(display.gfx.iter().filter(|&&p| p == 1).count(), 1);
}

#[test]
fn leftmost_bit_lands_on_column_x() {
    let mut display = Display::new();
    assert!(!display.draw_sprite(63, 0, &[0x80]));
    assert_eq!(display.gfx[63], 1);
    assert_eq!(display.gfx.iter().filter(|&&p| p == 1).count(), 1);
}

#[test]
fn drawing_twice_clears_and_collides() {
    let mut display = Display::new();
    assert!(!display.draw_sprite(63, 0, &[0x40]));
    assert!(display.draw_sprite(63, 0, &[0x40]));
    assert!(display.gfx.iter().all(|&p| p == 0));
}

#[test]
fn rows_wrap_to_top() {
    let mut display = Display::new();
    assert!(!display.draw_sprite(0, 31, &[0x80, 0x80]));
    assert_eq!(display.gfx[31 * 64], 1);
    assert_eq!(display.gfx[0], 1);
}

#[test]
fn coordinates_beyond_screen_wrap() {
    let mut display = Display::new();
    assert!(!display.draw_sprite(64 + 2, 32 + 1, &[0xC0]));
    assert_eq!(display.gfx[64 + 2], 1);
    assert_eq!(display.gfx[64 + 3], 1);
}

#[test]
fn collision_only_on_set_pixels() {
    let mut display = Display::new();
    display.gfx[5] = 1;
    assert!(!display.draw_sprite(0, 0, &[0x80]));
    assert!(display.draw_sprite(0, 0, &[0x04]));
    assert_eq!(display.gfx[5], 0);
    assert_eq!(display.gfx[0], 1);
}

#[test]
fn clear_turns_every_pixel_off() {
    let mut display = Display::new();
    display.draw_sprite(10, 10, &[0xFF, 0xFF]);
    display.clear();
    assert!(display.gfx.iter().all(|&p| p == 0));
}
