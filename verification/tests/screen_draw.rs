//! Tests for the XOR sprite screen.

use chip8::screen::{Pixel, Screen};

#[test]
fn draw_then_read_single_byte() {
    let mut screen = Screen::new();
    let erased = screen.draw_sprite(0, 0, &vec![0b1010_0001]);
    assert!(!erased);
    assert!(screen.get_pixel(0, 0));
    assert!(!screen.get_pixel(1, 0));
    assert!(screen.get_pixel(2, 0));
    assert!(!screen.get_pixel(3, 0));
    assert!(screen.get_pixel(7, 0));
    assert!(!screen.get_pixel(8, 0));
}

#[test]
fn draw_twice_collides_and_restores() {
    // Double-XOR: the second identical draw reports a collision and
    // restores the screen to its state before the first draw.
    let mut screen = Screen::new();
    let sprite = vec![0xF0u8, 0x90, 0x90, 0x90, 0xF0];
    let first = screen.draw_sprite(10, 5, &sprite);
    assert!(!first);
    let second = screen.draw_sprite(10, 5, &sprite);
    assert!(second);
    for y in 0..32 {
        for x in 0..64 {
            assert!(!screen.get_pixel(x, y), "pixel ({}, {}) not restored", x, y);
        }
    }
}

#[test]
fn initial_coordinates_wrap() {
    let mut screen = Screen::new();
    screen.draw_sprite(64 + 3, 32 + 2, &vec![0x80]);
    assert!(screen.get_pixel(3, 2));
}

#[test]
fn sprite_pixels_wrap_around_the_right_edge() {
    let mut screen = Screen::new();
    // Drawn at column 62, bits spill over to columns 0..6 of the same row.
    screen.draw_sprite(62, 0, &vec![0xFF]);
    assert!(screen.get_pixel(62, 0));
    assert!(screen.get_pixel(63, 0));
    for x in 0..6 {
        assert!(screen.get_pixel(x, 0));
    }
    assert!(!screen.get_pixel(6, 0));
    // Nothing lands on the next row.
    for x in 0..64 {
        assert!(!screen.get_pixel(x, 1));
    }
}

#[test]
fn rows_below_the_bottom_edge_are_clipped() {
    let mut screen = Screen::new();
    screen.draw_sprite(0, 31, &vec![0x80, 0x80]);
    assert!(screen.get_pixel(0, 31));
    // The second row fell off the screen and did not wrap to the top.
    assert!(!screen.get_pixel(0, 0));
}

#[test]
fn collision_counts_only_erased_pixels() {
    let mut screen = Screen::new();
    screen.draw_sprite(0, 0, &vec![0b1000_0000]);
    // Disjoint bits: no erasure.
    let erased = screen.draw_sprite(0, 0, &vec![0b0100_0000]);
    assert!(!erased);
    // Overlapping bit: erasure.
    let erased = screen.draw_sprite(0, 0, &vec![0b1000_0000]);
    assert!(erased);
    // The overlapped pixel went dark, its neighbour stayed lit.
    assert!(!screen.get_pixel(0, 0));
    assert!(screen.get_pixel(1, 0));
}

#[test]
fn clear_darkens_everything() {
    let mut screen = Screen::new();
    screen.draw_sprite(5, 5, &vec![0xFF, 0xFF]);
    screen.clear();
    for y in 0..32 {
        for x in 0..64 {
            assert!(!screen.get_pixel(x, y));
        }
    }
}

#[test]
fn fill_sets_every_pixel() {
    let mut screen = Screen::new();
    let mut lit = Pixel::new();
    lit.set_filled(true);
    assert!(lit.filled());
    screen.fill(lit);
    for y in 0..32 {
        for x in 0..64 {
            assert!(screen.get_pixel(x, y));
        }
    }
}

#[test]
fn set_pixel_xors_and_reports_erasure() {
    let mut screen = Screen::new();
    assert!(!screen.set_pixel(4, 4, true));
    assert!(screen.get_pixel(4, 4));
    // XOR with an unlit bit changes nothing.
    assert!(!screen.set_pixel(4, 4, false));
    assert!(screen.get_pixel(4, 4));
    // XOR with a lit bit erases and reports it.
    assert!(screen.set_pixel(4, 4, true));
    assert!(!screen.get_pixel(4, 4));
}

#[test]
fn render_skips_when_nothing_changed() {
    let mut screen = Screen::new();
    let mut frame = vec![0u8; 64 * 32 * 4];
    // A fresh screen has no pending change.
    assert!(!screen.draw(&mut frame));
    screen.draw_sprite(0, 0, &vec![0x80]);
    assert!(screen.draw(&mut frame));
    // The lit pixel became four 0xFF bytes, dark pixels four zero bytes.
    assert_eq!(&frame[0..4], &[0xFF, 0xFF, 0xFF, 0xFF]);
    assert_eq!(&frame[4..8], &[0, 0, 0, 0]);
    // A second render with no change in between is skipped.
    assert!(!screen.draw(&mut frame));
}
