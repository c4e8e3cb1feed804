use chip8::display::Display;

fn lit_cells(display: &Display) -> Vec<(usize, usize)> {
    let mut cells = Vec::new();
    for y in 0..32 {
        for x in 0..64 {
            if display.pixel(x, y) {
                cells.push((x, y));
            }
        }
    }
    cells
}

#[test]
fn a_new_display_is_blank() {
    let display = Display::new();
    assert_eq!(lit_cells(&display), vec![]);
    assert_eq!(display.frame_buffer().len(), 64 * 32 * 4);
    assert!(display.frame_buffer().iter().all(|byte| *byte == 0));
}

#[test]
fn set_pixel_toggles_and_reports_what_was_there() {
    let mut display = Display::new();
    assert!(!display.set_pixel(3, 5));
    assert!(display.pixel(3, 5));
    assert_eq!(lit_cells(&display), vec![(3, 5)]);
    assert!(display.set_pixel(3, 5));
    assert!(!display.pixel(3, 5));
    assert_eq!(lit_cells(&display), vec![]);
}

#[test]
fn set_pixel_wraps_round_both_edges() {
    let mut display = Display::new();
    assert!(!display.set_pixel(64, 32));
    assert_eq!(lit_cells(&display), vec![(0, 0)]);
    assert!(!display.set_pixel(64 + 63, 32 + 31));
    assert_eq!(lit_cells(&display), vec![(0, 0), (63, 31)]);
    assert!(display.set_pixel(128, 64));
    assert_eq!(lit_cells(&display), vec![(63, 31)]);
    assert!(display.pixel(63 + 64, 31 + 32));
}

#[test]
fn a_lit_cell_has_its_four_colour_bytes() {
    let mut display = Display::new();
    display.set_pixel(2, 1);
    let bytes = display.frame_buffer();
    let at = (1 * 64 + 2) * 4;
    assert_eq!(&bytes[at..at + 4], &[254, 100, 254, 100]);
    for (i, byte) in bytes.iter().enumerate() {
        if i < at || i >= at + 4 {
            assert_eq!(*byte, 0);
        }
    }
}

#[test]
fn clear_unsets_every_cell() {
    let mut display = Display::new();
    for i in 0..40 {
        display.set_pixel(i * 7, i * 3);
    }
    assert_ne!(lit_cells(&display), vec![]);
    display.clear();
    assert_eq!(lit_cells(&display), vec![]);
    assert_eq!(display.frame_buffer().len(), 64 * 32 * 4);
    assert!(display.frame_buffer().iter().all(|byte| *byte == 0));
}

#[test]
fn draw_sprite_draws_bits_from_the_left() {
    let mut display = Display::new();
    let collided = display.draw_sprite(10, 4, &[0b1000_0001, 0b0100_0000]);
    assert!(!collided);
    assert_eq!(lit_cells(&display), vec![(10, 4), (17, 4), (11, 5)]);
}

#[test]
fn draw_sprite_wraps_round_the_edges() {
    let mut display = Display::new();
    let collided = display.draw_sprite(62, 31, &[0b1111_0000, 0b1000_0000]);
    assert!(!collided);
    assert_eq!(lit_cells(&display), vec![(62, 0), (0, 31), (1, 31), (62, 31), (63, 31)]);
}

#[test]
fn draw_sprite_takes_coordinates_modulo_the_screen() {
    let mut display = Display::new();
    display.draw_sprite(64 + 5, 32 + 3, &[0b1000_0000]);
    assert_eq!(lit_cells(&display), vec![(5, 3)]);
    display.draw_sprite(255, 255, &[0b1100_0000]);
    assert_eq!(lit_cells(&display), vec![(5, 3), (0, 31), (63, 31)]);
}

#[test]
fn draw_sprite_is_exclusive_or() {
    let mut display = Display::new();
    assert!(!display.draw_sprite(0, 0, &[0b1111_0000]));
    assert!(display.draw_sprite(2, 0, &[0b1111_0000]));
    assert_eq!(lit_cells(&display), vec![(0, 0), (1, 0), (4, 0), (5, 0)]);
}

#[test]
fn draw_sprite_without_overlap_does_not_collide() {
    let mut display = Display::new();
    assert!(!display.draw_sprite(0, 0, &[0b1010_1010]));
    assert!(!display.draw_sprite(0, 0, &[0b0101_0101]));
    assert_eq!(lit_cells(&display).len(), 8);
}

#[test]
fn drawing_twice_restores_the_screen() {
    let mut display = Display::new();
    display.draw_sprite(3, 3, &[0xFF, 0x81, 0xFF]);
    let before = lit_cells(&display);
    let sprite = [0xF0, 0x90, 0x90, 0x90, 0xF0];
    let first = display.draw_sprite(5, 2, &sprite);
    assert!(first);
    assert_ne!(lit_cells(&display), before);
    let second = display.draw_sprite(5, 2, &sprite);
    assert!(second);
    assert_eq!(lit_cells(&display), before);
}

#[test]
fn second_drawing_on_a_blank_screen_collides() {
    let mut display = Display::new();
    let sprite = [0x20, 0x60, 0x20, 0x20, 0x70];
    assert!(!display.draw_sprite(60, 30, &sprite));
    assert!(display.draw_sprite(60, 30, &sprite));
    assert_eq!(lit_cells(&display), vec![]);
}

#[test]
fn second_drawing_of_a_wholly_covered_sprite_does_not_collide() {
    let mut display = Display::new();
    display.draw_sprite(0, 0, &[0xFF]);
    assert!(display.draw_sprite(0, 0, &[0x3C]));
    assert!(!display.draw_sprite(0, 0, &[0x3C]));
    assert_eq!(lit_cells(&display).len(), 8);
}

#[test]
fn an_empty_sprite_changes_nothing() {
    let mut display = Display::new();
    display.set_pixel(1, 1);
    assert!(!display.draw_sprite(1, 1, &[]));
    assert!(!display.draw_sprite(1, 1, &[0x00, 0x00]));
    assert_eq!(lit_cells(&display), vec![(1, 1)]);
}

#[test]
fn a_sprite_of_fifteen_rows_is_drawn_whole() {
    let mut display = Display::new();
    let sprite = [0x80u8; 15];
    assert!(!display.draw_sprite(7, 20, &sprite));
    let cells = lit_cells(&display);
    assert_eq!(cells.len(), 15);
    for row in 0..15 {
        assert!(display.pixel(7, (20 + row) % 32));
    }
}
