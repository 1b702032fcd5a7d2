use drawille::block::{Canvas, Color};

const DEFAULT_CELL: &str = "\x1b[0;40m\x1b[30m ";
const RESET: &str = "\x1b[0m";

#[test]
fn set_then_get_returns_color() {
    let mut c = Canvas::new(10, 10);
    c.set(3, 5, Color::Green);
    assert_eq!(c.get(3, 5), Color::Green);
}

#[test]
fn set_overwrites_same_sub_pixel() {
    let mut c = Canvas::new(10, 10);
    c.set(3, 5, Color::Green);
    c.set(3, 5, Color::Magenta);
    assert_eq!(c.get(3, 5), Color::Magenta);
}

#[test]
fn unset_reads_black() {
    let mut c = Canvas::new(10, 10);
    c.set(3, 5, Color::Green);
    c.unset(3, 5);
    assert_eq!(c.get(3, 5), Color::Black);
}

#[test]
fn fresh_canvas_reads_black() {
    let c = Canvas::new(10, 10);
    assert_eq!(c.get(0, 0), Color::Black);
    assert_eq!(c.get(7, 3), Color::Black);
}

#[test]
fn bounds_example() {
    // A 4x8-pixel canvas is 2x2 cells, rendered as 3 rows of 3 cells.
    let mut c = Canvas::new(4, 8);
    let rows = c.rows();
    assert_eq!(rows.len(), 3);
    for row in &rows {
        let expected = format!("{}{}{}{}", DEFAULT_CELL, DEFAULT_CELL, DEFAULT_CELL, RESET);
        assert_eq!(row, &expected);
    }
    c.set(1, 3, Color::Red);
    assert_eq!(c.get(1, 3), Color::Red);
    assert_eq!(c.get(1, 2), Color::Black);
}

#[test]
fn clear_removes_block_writes_and_shrinks() {
    let mut c = Canvas::new(4, 8);
    c.set(9, 9, Color::Blue);
    assert_eq!(c.rows().len(), 5);
    c.clear();
    assert_eq!(c.get(9, 9), Color::Black);
    assert_eq!(c.rows().len(), 3);
}

#[test]
fn pair_cell_renders_half_block() {
    let mut c = Canvas::new(0, 0);
    c.set(0, 0, Color::Red);
    let rows = c.rows();
    assert_eq!(rows.len(), 1);
    // Top half red as background, bottom half black as foreground.
    assert_eq!(rows[0], format!("\x1b[0;41m\x1b[30m\u{2584}{}", RESET));
}

#[test]
fn text_writes_consecutive_cells() {
    let mut c = Canvas::new(0, 0);
    c.text(0, 0, Color::White, Color::Black, "hi");
    let rows = c.rows();
    assert_eq!(rows.len(), 1);
    assert_eq!(
        rows[0],
        format!("\x1b[0;40m\x1b[37mh\x1b[0;40m\x1b[37mi{}", RESET)
    );
}

#[test]
fn frame_joins_rows_with_newlines() {
    let mut c = Canvas::new(4, 8);
    c.set(0, 0, Color::Cyan);
    let rows = c.rows();
    assert_eq!(c.frame(), rows.join("\n"));
}

#[test]
fn horizontal_line_sets_each_pixel() {
    let mut c = Canvas::new(0, 0);
    c.line(0, 0, 3, 0, Color::Red);
    for x in 0..4 {
        assert_eq!(c.get(x, 0), Color::Red);
        assert_eq!(c.get(x, 1), Color::Black);
    }
}

#[test]
fn zero_length_line_touches_one_pixel() {
    let mut c = Canvas::new(0, 0);
    assert_eq!(c.line_vec(2, 2, 2, 2), vec![(2, 2)]);
    c.line(2, 2, 2, 2, Color::Cyan);
    assert_eq!(c.get(2, 2), Color::Cyan);
    assert_eq!(c.get(2, 3), Color::Black);
    assert_eq!(c.get(1, 2), Color::Black);
    assert_eq!(c.get(3, 2), Color::Black);
}

#[test]
fn line_vec_truncating_interpolation() {
    let c = Canvas::new(0, 0);
    // Shallow slope: the truncation repeats x while y catches up.
    assert_eq!(c.line_vec(0, 0, 3, 1), vec![(0, 0), (1, 0), (2, 0), (3, 1)]);
    // Steep slope, and order runs from endpoint 1 to endpoint 2.
    assert_eq!(c.line_vec(0, 0, 1, 2), vec![(0, 0), (0, 1), (1, 2)]);
    assert_eq!(c.line_vec(1, 2, 0, 0), vec![(1, 2), (1, 1), (0, 0)]);
}

#[test]
fn diagonal_line_reversal_same_points() {
    let c = Canvas::new(0, 0);
    let fwd = c.line_vec(0, 0, 3, 3);
    let mut rev = c.line_vec(3, 3, 0, 0);
    assert_eq!(fwd, vec![(0, 0), (1, 1), (2, 2), (3, 3)]);
    rev.reverse();
    assert_eq!(fwd, rev);
}

#[test]
fn vertical_line_reversal_same_points() {
    let c = Canvas::new(0, 0);
    let fwd = c.line_vec(5, 1, 5, 4);
    let mut rev = c.line_vec(5, 4, 5, 1);
    rev.reverse();
    assert_eq!(fwd, rev);
}
