use chip8::display::{bits, Display, Sprite};

fn sprite_of(rows: &[u8], x: usize, y: usize) -> Sprite {
    let mut data = [0u8; 15];
    data[..rows.len()].copy_from_slice(rows);
    Sprite { data, length: rows.len() as u8, x, y }
}

fn lit(display: &Display) -> Vec<(usize, usize)> {
    let pixels = display.read_pixels();
    (0..2048).filter(|p| pixels[*p]).map(|p| (p % 64, p / 64)).collect()
}

#[test]
fn new_plane_is_blank() {
    let display = Display::new();
    assert_eq!(display.read_pixels().len(), 64 * 32);
    assert!(display.read_pixels().iter().all(|p| !*p));
}

#[test]
fn bits_are_leftmost_first() {
    assert_eq!(bits(0b1000_0000), [true, false, false, false, false, false, false, false]);
    assert_eq!(bits(0b0000_0001), [false, false, false, false, false, false, false, true]);
    assert_eq!(bits(0xA5), [true, false, true, false, false, true, false, true]);
    assert_eq!(bits(0x00), [false; 8]);
    assert_eq!(bits(0xFF), [true; 8]);
}

#[test]
fn draw_sets_the_pixels_of_the_sprite() {
    let mut display = Display::new();
    let flag = display.draw_sprite(&sprite_of(&[0b1100_0000, 0b0000_0001], 2, 3));
    assert_eq!(flag, 0);
    assert_eq!(lit(&display), vec![(2, 3), (3, 3), (9, 4)]);
}

#[test]
fn drawing_twice_clears_what_was_drawn() {
    let mut display = Display::new();
    let sprite = sprite_of(&[0xF0, 0x90, 0x90, 0x90, 0xF0], 10, 5);
    assert_eq!(display.draw_sprite(&sprite), 0);
    assert_eq!(lit(&display).len(), 14);
    assert_eq!(display.draw_sprite(&sprite), 1);
    assert!(lit(&display).is_empty());
}

#[test]
fn drawing_twice_restores_a_plane_that_was_not_blank() {
    let mut display = Display::new();
    display.draw_sprite(&sprite_of(&[0xFF, 0x81, 0xFF], 7, 7));
    let before = *display.read_pixels();
    let sprite = sprite_of(&[0x3C, 0x42], 5, 6);
    display.draw_sprite(&sprite);
    assert!(before != *display.read_pixels());
    display.draw_sprite(&sprite);
    assert!(before == *display.read_pixels());
}

#[test]
fn sprite_at_the_right_edge_wraps_to_the_left() {
    let mut display = Display::new();
    display.draw_sprite(&sprite_of(&[0xFF], 60, 0));
    assert_eq!(
        lit(&display),
        vec![(0, 0), (1, 0), (2, 0), (3, 0), (60, 0), (61, 0), (62, 0), (63, 0)]
    );
}

#[test]
fn sprite_at_the_bottom_edge_wraps_to_the_top() {
    let mut display = Display::new();
    display.draw_sprite(&sprite_of(&[0x80, 0x80, 0x80], 5, 30));
    assert_eq!(lit(&display), vec![(5, 0), (5, 30), (5, 31)]);
}

#[test]
fn origin_beyond_the_plane_is_taken_modulo_its_size() {
    let mut display = Display::new();
    display.draw_sprite(&sprite_of(&[0x80], 64 + 3, 32 + 4));
    assert_eq!(lit(&display), vec![(3, 4)]);
    let mut display = Display::new();
    display.draw_sprite(&sprite_of(&[0x80], usize::MAX, usize::MAX));
    assert_eq!(lit(&display), vec![(63, 31)]);
}

#[test]
fn collision_only_where_a_pixel_goes_off() {
    let mut display = Display::new();
    display.draw_sprite(&sprite_of(&[0b1010_0000], 0, 0));
    // lights pixels that are still off: no collision
    assert_eq!(display.draw_sprite(&sprite_of(&[0b0101_0000], 0, 0)), 0);
    assert_eq!(lit(&display), vec![(0, 0), (1, 0), (2, 0), (3, 0)]);
    // one pixel goes off
    assert_eq!(display.draw_sprite(&sprite_of(&[0b1000_0000], 0, 0)), 1);
    assert_eq!(lit(&display), vec![(1, 0), (2, 0), (3, 0)]);
}

#[test]
fn empty_sprite_changes_nothing() {
    let mut display = Display::new();
    display.draw_sprite(&sprite_of(&[0xFF], 0, 0));
    let before = *display.read_pixels();
    assert_eq!(display.draw_sprite(&sprite_of(&[], 0, 0)), 0);
    assert_eq!(display.draw_sprite(&sprite_of(&[0x00, 0x00], 0, 0)), 0);
    assert!(before == *display.read_pixels());
}

#[test]
fn rows_beyond_the_length_are_not_drawn() {
    let mut display = Display::new();
    let mut sprite = sprite_of(&[0x80, 0x80, 0x80], 0, 0);
    sprite.length = 1;
    display.draw_sprite(&sprite);
    assert_eq!(lit(&display), vec![(0, 0)]);
}

#[test]
fn clear_turns_every_pixel_off() {
    let mut display = Display::new();
    display.draw_sprite(&sprite_of(&[0xFF; 15], 61, 25));
    assert_eq!(lit(&display).len(), 8 * 15);
    display.clear();
    assert!(lit(&display).is_empty());
}
