use libchip8::display::Display;

#[test]
fn draw_on_clear_screen_never_collides() {
    let mut d = Display::new();
    let sprite = vec![0xFFu8, 0x81, 0xFF];
    let col = d.draw(10, 5, &sprite);
    assert!(!col);
    assert!(d.get(10, 5));
    assert!(d.get(17, 5));
    assert!(d.get(10, 6));
    assert!(!d.get(11, 6));
    assert!(d.get(17, 6));
    assert!(d.get(10, 7));
}

#[test]
fn redraw_of_identical_sprite_collides_and_erases() {
    let mut d = Display::new();
    let sprite = vec![0xFFu8, 0x81, 0xFF];
    assert!(!d.draw(10, 5, &sprite));
    let col = d.draw(10, 5, &sprite);
    assert!(col);
    for y in 0..32 {
        for x in 0..64 {
            assert!(!d.get(x, y));
        }
    }
}

#[test]
fn clear_then_draw_reports_no_collision() {
    let mut d = Display::new();
    let sprite = vec![0xFFu8];
    assert!(!d.draw(0, 0, &sprite));
    assert!(d.draw(0, 0, &sprite));
    d.clear();
    for y in 0..32 {
        for x in 0..64 {
            assert!(!d.get(x, y));
        }
    }
    assert!(!d.draw(0, 0, &sprite));
}

#[test]
fn wraparound_at_the_right_and_bottom_edges() {
    let mut d = Display::new();
    // Two rows with the two leftmost bits set, drawn at the far corner:
    // columns wrap 63 -> 0 and rows wrap 31 -> 0.
    let sprite = vec![0xC0u8, 0xC0];
    let col = d.draw(63, 31, &sprite);
    assert!(!col);
    assert!(d.get(63, 31));
    assert!(d.get(0, 31));
    assert!(d.get(63, 0));
    assert!(d.get(0, 0));
    assert!(!d.get(1, 0));
    assert!(!d.get(1, 1));
}

#[test]
fn one_row_sprite_wraps_columns_only() {
    let mut d = Display::new();
    let sprite = vec![0xFFu8];
    d.draw(63, 31, &sprite);
    assert!(d.get(63, 31));
    for x in 0..7 {
        assert!(d.get(x, 31));
    }
    assert!(!d.get(0, 0));
    assert!(!d.get(7, 31));
}

#[test]
fn collision_is_per_overlap_not_per_sprite() {
    let mut d = Display::new();
    assert!(!d.draw(0, 0, &vec![0x80u8]));
    // Overlaps only in the leftmost pixel.
    assert!(d.draw(0, 0, &vec![0xC0u8]));
    // The overlapped pixel toggled off, its new neighbour is on.
    assert!(!d.get(0, 0));
    assert!(d.get(1, 0));
}

#[test]
fn coordinates_beyond_the_grid_wrap_before_drawing() {
    let mut d = Display::new();
    // 64 + 2 wraps to column 2, 32 + 1 wraps to row 1.
    d.draw(66, 33, &vec![0x80u8]);
    assert!(d.get(2, 1));
    assert!(!d.get(2, 0));
}
