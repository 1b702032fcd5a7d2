use drawille::braille::Canvas;

#[test]
fn set_then_get_is_true() {
    let mut c = Canvas::new(10, 10);
    c.set(3, 5);
    assert!(c.get(3, 5));
}

#[test]
fn unset_then_get_is_false() {
    let mut c = Canvas::new(10, 10);
    c.set(3, 5);
    c.unset(3, 5);
    assert!(!c.get(3, 5));
}

#[test]
fn toggle_twice_is_involution() {
    let mut c = Canvas::new(10, 10);
    assert!(!c.get(4, 2));
    c.toggle(4, 2);
    assert!(c.get(4, 2));
    c.toggle(4, 2);
    assert!(!c.get(4, 2));

    c.set(7, 7);
    c.toggle(7, 7);
    assert!(!c.get(7, 7));
    c.toggle(7, 7);
    assert!(c.get(7, 7));
}

#[test]
fn neighboring_dots_are_independent() {
    let mut c = Canvas::new(10, 10);
    c.set(0, 0);
    assert!(!c.get(1, 0));
    assert!(!c.get(0, 1));
    c.unset(1, 0);
    assert!(c.get(0, 0));
}

#[test]
fn single_cell_frame() {
    // With no configured minimum, one set dot renders as one Braille char.
    let mut c = Canvas::new(0, 0);
    c.set(0, 0);
    assert_eq!(c.frame(), "\u{2801}");
}

#[test]
fn dot_positions_fill_one_cell() {
    let mut c = Canvas::new(0, 0);
    for x in 0..2 {
        for y in 0..4 {
            c.set(x, y);
        }
    }
    // All eight dots set: mask 0xFF.
    assert_eq!(c.frame(), "\u{28FF}");
}

#[test]
fn configured_minimum_pads_frame() {
    // A 2x4-pixel canvas is 1x1 cells, but the effective render area is
    // grown from the configured minimum, so the frame is 2x2 cells.
    let mut c = Canvas::new(2, 4);
    c.set(0, 0);
    assert_eq!(c.frame(), "\u{2801} \n  ");
}

#[test]
fn empty_cells_render_as_spaces() {
    let mut c = Canvas::new(0, 0);
    c.set(4, 0);
    let rows = c.rows();
    assert_eq!(rows.len(), 1);
    assert_eq!(rows[0], "  \u{2801}");
}

#[test]
fn clear_removes_dot_writes_and_shrinks() {
    let mut c = Canvas::new(2, 4);
    c.set(10, 10);
    assert!(c.get(10, 10));
    assert_eq!(c.rows().len(), 3);
    c.clear();
    assert!(!c.get(10, 10));
    assert_eq!(c.rows().len(), 2);
}

#[test]
fn vertical_line_fills_cells() {
    let mut c = Canvas::new(0, 0);
    c.line(0, 0, 0, 7);
    for y in 0..8 {
        assert!(c.get(0, y));
    }
    // Dots 1, 2, 3 and 7 of each cell: mask 0x47.
    assert_eq!(c.frame(), "\u{2847}\n\u{2847}");
}

#[test]
fn cell_width_and_height_setters() {
    let mut c = Canvas::new(0, 0);
    c.set_cell_width(2);
    c.set_cell_height(1);
    let rows = c.rows();
    assert_eq!(rows.len(), 2);
    assert_eq!(rows[0], "   ");
}
