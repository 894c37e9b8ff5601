use chip8_emulator::display::Display;

fn lit_pixels(display: &Display) -> usize {
    let mut count = 0;
    for row in display.pixel_grid().iter() {
        for &pixel in row.iter() {
            if pixel {
                count += 1;
            }
        }
    }
    count
}

#[test]
fn new_display_is_blank() {
    let display = Display::new();
    assert_eq!(lit_pixels(&display), 0);
    assert_eq!(display.pixel_grid().len(), 32);
    assert_eq!(display.pixel_grid()[0].len(), 64);
}

#[test]
fn plot_lights_a_dark_pixel_without_collision() {
    let mut display = Display::new();
    assert!(!display.set_pixel(10, 4, true));
    assert!(display.pixel_at(10, 4));
    assert!(display.pixel_grid()[4][10]);
    assert_eq!(lit_pixels(&display), 1);
}

#[test]
fn plot_on_a_lit_pixel_collides_and_clears_it() {
    let mut display = Display::new();
    display.set_pixel(10, 4, true);
    assert!(display.set_pixel(10, 4, true));
    assert!(!display.pixel_at(10, 4));
    assert_eq!(lit_pixels(&display), 0);
}

#[test]
fn plot_of_a_clear_bit_changes_nothing() {
    let mut display = Display::new();
    assert!(!display.set_pixel(3, 3, false));
    assert!(!display.pixel_at(3, 3));
    display.set_pixel(3, 3, true);
    assert!(!display.set_pixel(3, 3, false));
    assert!(display.pixel_at(3, 3));
}

#[test]
fn plot_at_x_64_is_the_pixel_at_x_0() {
    let mut display = Display::new();
    display.set_pixel(64, 5, true);
    assert!(display.pixel_grid()[5][0]);
    assert!(display.pixel_at(0, 5));
    assert_eq!(lit_pixels(&display), 1);
    assert!(display.set_pixel(0, 5, true));
    assert_eq!(lit_pixels(&display), 0);
}

#[test]
fn plot_at_y_32_is_the_pixel_at_y_0() {
    let mut display = Display::new();
    display.set_pixel(7, 32, true);
    assert!(display.pixel_grid()[0][7]);
    assert!(display.pixel_at(7, 0));
    assert_eq!(lit_pixels(&display), 1);
    assert!(display.set_pixel(7, 0, true));
    assert_eq!(lit_pixels(&display), 0);
}

#[test]
fn plot_wraps_both_coordinates_at_once() {
    let mut display = Display::new();
    display.set_pixel(64 + 63, 32 + 31, true);
    assert!(display.pixel_grid()[31][63]);
    assert!(display.pixel_at(127, 63));
    assert_eq!(lit_pixels(&display), 1);
}

#[test]
fn clear_turns_every_pixel_off() {
    let mut display = Display::new();
    display.set_pixel(0, 0, true);
    display.set_pixel(63, 31, true);
    display.set_pixel(20, 10, true);
    assert_eq!(lit_pixels(&display), 3);
    display.clear();
    assert_eq!(lit_pixels(&display), 0);
}
