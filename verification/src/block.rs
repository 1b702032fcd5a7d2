//! Canvas of colored half-block glyphs.  Each character cell packs two
//! vertically stacked color sub-pixels, shown through one lower-half-block
//! glyph whose background paints the top half and whose foreground paints the
//! bottom half; a cell may instead hold one text glyph with its own colors.
//! Pixel coordinate (x, y) addresses cell (x, y / 2), sub-pixel y % 2.

use vstd::prelude::*;
use crate::grid::{SparseGrid, grown_bound_x, grown_bound_y};
use crate::raster;
use crate::strbuf::push_char;

verus! {

/// The eight terminal colors.  Their order is load-bearing: a color's
/// ordinal is the digit spliced into its terminal escape sequence.
#[derive(Copy, Clone, Debug, PartialEq, Eq, Structural)]
pub enum Color {
    Black,
    Red,
    Green,
    Yellow,
    Blue,
    Magenta,
    Cyan,
    White,
}

/// A color's ordinal, 0 through 7.
pub open spec fn color_ordinal(c: Color) -> int {
    match c {
        Color::Black => 0,
        Color::Red => 1,
        Color::Green => 2,
        Color::Yellow => 3,
        Color::Blue => 4,
        Color::Magenta => 5,
        Color::Cyan => 6,
        Color::White => 7,
    }
}

/// The ASCII digit of a color's ordinal.
pub open spec fn color_digit(c: Color) -> char {
    match c {
        Color::Black => '0',
        Color::Red => '1',
        Color::Green => '2',
        Color::Yellow => '3',
        Color::Blue => '4',
        Color::Magenta => '5',
        Color::Cyan => '6',
        Color::White => '7',
    }
}

/// Two colors in one cell.  In a text cell they are (background, foreground);
/// in a half-block cell they are (top half, bottom half).
#[derive(Copy, Clone, Debug, PartialEq, Eq, Structural)]
pub struct ColorPair(pub Color, pub Color);

/// One cell of the canvas: a text glyph with its colors, or two stacked
/// half-height color sub-pixels.
#[derive(Copy, Clone, Debug, PartialEq, Eq, Structural)]
pub enum Pixel {
    Char(ColorPair, char),
    Pair(ColorPair),
}

/// What an unwritten cell shows: a black space.
pub open spec fn default_pixel() -> Pixel {
    Pixel::Char(ColorPair(Color::Black, Color::Black), ' ')
}

/// The cell a pixel coordinate addresses: column x, row y / 2.
pub open spec fn cell_key(x: usize, y: usize) -> (usize, usize) {
    (x, y / 2)
}

/// The color pair a cell contributes when a color sub-pixel is written to it:
/// an absent or text cell starts over as two black halves.
pub open spec fn pair_of_cell(m: Map<(usize, usize), Pixel>, k: (usize, usize)) -> ColorPair {
    if m.contains_key(k) {
        match m[k] {
            Pixel::Pair(cp) => cp,
            Pixel::Char(_, _) => ColorPair(Color::Black, Color::Black),
        }
    } else {
        ColorPair(Color::Black, Color::Black)
    }
}

/// A color pair with one half replaced: sub-pixel 0 is the top half, 1 the
/// bottom.
pub open spec fn with_half(cp: ColorPair, sub: int, c: Color) -> ColorPair {
    if sub == 0 {
        ColorPair(c, cp.1)
    } else {
        ColorPair(cp.0, c)
    }
}

/// The canvas map after writing color `c` to pixel (x, y).
pub open spec fn map_set(m: Map<(usize, usize), Pixel>, x: usize, y: usize, c: Color) -> Map<
    (usize, usize),
    Pixel,
> {
    m.insert(
        cell_key(x, y),
        Pixel::Pair(with_half(pair_of_cell(m, cell_key(x, y)), (y % 2) as int, c)),
    )
}

/// Whether the cell addressed by pixel (x, y) currently holds a text glyph.
pub open spec fn is_text_cell(m: Map<(usize, usize), Pixel>, x: usize, y: usize) -> bool {
    m.contains_key(cell_key(x, y)) && m[cell_key(x, y)] is Char
}

/// The color read at pixel (x, y): black where the cell is absent.  (On a
/// text cell the read is a caller error; this model answers black there, and
/// `get` excludes that case.)
pub open spec fn map_get(m: Map<(usize, usize), Pixel>, x: usize, y: usize) -> Color {
    if m.contains_key(cell_key(x, y)) {
        match m[cell_key(x, y)] {
            Pixel::Pair(cp) => if y % 2 == 0 {
                cp.0
            } else {
                cp.1
            },
            Pixel::Char(_, _) => Color::Black,
        }
    } else {
        Color::Black
    }
}

/// The canvas map after writing the characters of `s` into consecutive cells
/// starting at cell (x, col).
pub open spec fn map_text(
    m: Map<(usize, usize), Pixel>,
    x: usize,
    col: usize,
    fg: Color,
    bg: Color,
    s: Seq<char>,
) -> Map<(usize, usize), Pixel>
    decreases s.len(),
{
    if s.len() == 0 {
        m
    } else {
        map_text(m, x, col, fg, bg, s.drop_last()).insert(
            ((x + s.len() - 1) as usize, col),
            Pixel::Char(ColorPair(bg, fg), s.last()),
        )
    }
}

/// Writing color `c` to pixel (x, y) makes that pixel read back `c`, on any
/// canvas contents.
pub proof fn lemma_set_then_get(m: Map<(usize, usize), Pixel>, x: usize, y: usize, c: Color)
    ensures
        map_get(map_set(m, x, y, c), x, y) == c,
{
}

/// Writing a color to one pixel leaves every pixel of every other cell, and
/// the other half of the same cell if that cell already held color halves,
/// reading back as before.
pub proof fn lemma_set_preserves_others(
    m: Map<(usize, usize), Pixel>,
    x: usize,
    y: usize,
    c: Color,
    x2: usize,
    y2: usize,
)
    requires
        cell_key(x2, y2) != cell_key(x, y) || (y2 % 2 != y % 2 && !is_text_cell(m, x, y)),
    ensures
        map_get(map_set(m, x, y, c), x2, y2) == map_get(m, x2, y2),
{
}

/// Blanking a pixel (writing black, which is what `unset` does) makes it
/// read back black, on any canvas contents.
pub proof fn lemma_unset_then_get(m: Map<(usize, usize), Pixel>, x: usize, y: usize)
    ensures
        map_get(map_set(m, x, y, Color::Black), x, y) == Color::Black,
{
}

/// On a cleared canvas every pixel reads back black.
pub proof fn lemma_empty_reads_black(x: usize, y: usize)
    ensures
        map_get(Map::<(usize, usize), Pixel>::empty(), x, y) == Color::Black,
{
}

/// The escape that sets the background color: ESC [ 0 ; 4 digit m.
pub open spec fn bg_escape(c: Color) -> Seq<char> {
    seq!['\u{1b}', '[', '0', ';', '4', color_digit(c), 'm']
}

/// The escape that sets the foreground color: ESC [ 3 digit m.
pub open spec fn fg_escape(c: Color) -> Seq<char> {
    seq!['\u{1b}', '[', '3', color_digit(c), 'm']
}

/// The full reset that ends every rendered line: ESC [ 0 m.
pub open spec fn reset_escape() -> Seq<char> {
    seq!['\u{1b}', '[', '0', 'm']
}

/// How one cell renders: both color escapes, then one display character.  A
/// text cell shows its glyph; a half-block cell shows the lower-half-block
/// glyph, its top half painted by the background and its bottom half by the
/// foreground.
pub open spec fn pixel_chars(p: Pixel) -> Seq<char> {
    match p {
        Pixel::Char(cp, a) => bg_escape(cp.0) + fg_escape(cp.1) + seq![a],
        Pixel::Pair(cp) => bg_escape(cp.0) + fg_escape(cp.1) + seq!['\u{2584}'],
    }
}

/// The rendering of the cell at (x, y), an absent cell rendering as the
/// default pixel.
pub open spec fn cell_chars(m: Map<(usize, usize), Pixel>, x: usize, y: usize) -> Seq<char> {
    pixel_chars(
        if m.contains_key((x, y)) {
            m[(x, y)]
        } else {
            default_pixel()
        },
    )
}

/// The first `n` cells of row `y`, rendered and concatenated.
pub open spec fn row_prefix_chars(m: Map<(usize, usize), Pixel>, y: usize, n: int) -> Seq<char>
    decreases n,
{
    if n <= 0 {
        Seq::empty()
    } else {
        row_prefix_chars(m, y, n - 1) + cell_chars(m, (n - 1) as usize, y)
    }
}

/// One whole rendered row: every cell through column `mx`, then the reset.
pub open spec fn row_chars(m: Map<(usize, usize), Pixel>, y: usize, mx: usize) -> Seq<char> {
    row_prefix_chars(m, y, mx + 1) + reset_escape()
}

/// The first `n` rendered rows, joined by newlines.
pub open spec fn frame_prefix_chars(m: Map<(usize, usize), Pixel>, mx: usize, n: int) -> Seq<char>
    decreases n,
{
    if n <= 0 {
        Seq::empty()
    } else if n == 1 {
        row_chars(m, 0, mx)
    } else {
        frame_prefix_chars(m, mx, n - 1) + seq!['\n'] + row_chars(m, (n - 1) as usize, mx)
    }
}

/// The canvas map after drawing the first `n` rasterized points of the line
/// from (x1, y1) to (x2, y2) in color `c`, in order.
pub open spec fn map_line(
    m: Map<(usize, usize), Pixel>,
    x1: usize,
    y1: usize,
    x2: usize,
    y2: usize,
    c: Color,
    n: int,
) -> Map<(usize, usize), Pixel>
    decreases n,
{
    if n <= 0 {
        m
    } else {
        let p = raster::line_point(x1 as int, y1 as int, x2 as int, y2 as int, n - 1);
        map_set(map_line(m, x1, y1, x2, y2, c, n - 1), p.0 as usize, p.1 as usize, c)
    }
}

/// A zero-length line writes exactly one pixel: its endpoint.
pub proof fn lemma_line_zero_length(m: Map<(usize, usize), Pixel>, x: usize, y: usize, c: Color)
    ensures
        raster::span(x as int, y as int, x as int, y as int) == 0,
        map_line(m, x, y, x, y, c, 1) == map_set(m, x, y, c),
{
    assert(map_line(m, x, y, x, y, c, 0) == m);
    assert(raster::line_point(x as int, y as int, x as int, y as int, 0) == (x as int, y as int));
}

/// Once a whole line has been drawn in color `c`, every one of its
/// rasterized points reads back `c`: a later point of the same line can land
/// on the same cell, but only ever writes the same color.
pub proof fn lemma_line_colors_points(
    m: Map<(usize, usize), Pixel>,
    x1: usize,
    y1: usize,
    x2: usize,
    y2: usize,
    c: Color,
    n: int,
    i: int,
)
    requires
        0 <= i < n,
    ensures
        ({
            let p = raster::line_point(x1 as int, y1 as int, x2 as int, y2 as int, i);
            let drawn = map_line(m, x1, y1, x2, y2, c, n);
            map_get(drawn, p.0 as usize, p.1 as usize) == c && !is_text_cell(
                drawn,
                p.0 as usize,
                p.1 as usize,
            )
        }),
    decreases n,
{
    let p = raster::line_point(x1 as int, y1 as int, x2 as int, y2 as int, i);
    let q = raster::line_point(x1 as int, y1 as int, x2 as int, y2 as int, n - 1);
    let prev = map_line(m, x1, y1, x2, y2, c, n - 1);
    if i == n - 1 {
        lemma_set_then_get(prev, q.0 as usize, q.1 as usize, c);
    } else {
        lemma_line_colors_points(m, x1, y1, x2, y2, c, n - 1, i);
        if cell_key(p.0 as usize, p.1 as usize) == cell_key(q.0 as usize, q.1 as usize) {
            if (p.1 as usize) % 2 == (q.1 as usize) % 2 {
                lemma_set_then_get(prev, q.0 as usize, q.1 as usize, c);
            } else {
                lemma_set_preserves_others(
                    prev,
                    q.0 as usize,
                    q.1 as usize,
                    c,
                    p.0 as usize,
                    p.1 as usize,
                );
            }
        } else {
            lemma_set_preserves_others(
                prev,
                q.0 as usize,
                q.1 as usize,
                c,
                p.0 as usize,
                p.1 as usize,
            );
        }
    }
}

/// The exec digit character of a color's ordinal.
fn digit_of(c: Color) -> (r: char)
    ensures
        r == color_digit(c),
{
    match c {
        Color::Black => '0',
        Color::Red => '1',
        Color::Green => '2',
        Color::Yellow => '3',
        Color::Blue => '4',
        Color::Magenta => '5',
        Color::Cyan => '6',
        Color::White => '7',
    }
}

/// Append both color escapes of a cell to the row being built.
fn push_escapes(row: &mut String, cp: ColorPair)
    ensures
        final(row)@ == old(row)@ + bg_escape(cp.0) + fg_escape(cp.1),
{
    push_char(row, '\u{1b}');
    push_char(row, '[');
    push_char(row, '0');
    push_char(row, ';');
    push_char(row, '4');
    push_char(row, digit_of(cp.0));
    push_char(row, 'm');
    push_char(row, '\u{1b}');
    push_char(row, '[');
    push_char(row, '3');
    push_char(row, digit_of(cp.1));
    push_char(row, 'm');
    proof {
        assert(row@ =~= old(row)@ + bg_escape(cp.0) + fg_escape(cp.1));
    }
}

/// Append one rendered cell to the row being built.
fn push_pixel(row: &mut String, p: Pixel)
    ensures
        final(row)@ == old(row)@ + pixel_chars(p),
{
    match p {
        Pixel::Char(cp, a) => {
            push_escapes(row, cp);
            push_char(row, a);
        },
        Pixel::Pair(cp) => {
            push_escapes(row, cp);
            push_char(row, '\u{2584}');
        },
    }
    proof {
        assert(row@ =~= old(row)@ + pixel_chars(p));
    }
}

/// The canvas itself: a sparse cell grid plus the configured minimum bounds,
/// in cell units.
pub struct Canvas {
    blocks: SparseGrid<Pixel>,
    width: usize,
    height: usize,
}

impl View for Canvas {
    type V = Map<(usize, usize), Pixel>;

    closed spec fn view(&self) -> Map<(usize, usize), Pixel> {
        self.blocks@
    }
}

impl Canvas {
    /// The configured minimum width, in cell units.
    pub closed spec fn spec_width(&self) -> usize {
        self.width
    }

    /// The configured minimum height, in cell units.
    pub closed spec fn spec_height(&self) -> usize {
        self.height
    }

    /// A canvas of the given size in pixel units: width / 2 columns and
    /// height / 4 rows of cells, with nothing written.
    pub fn new(width: usize, height: usize) -> (c: Canvas)
        ensures
            c@ == Map::<(usize, usize), Pixel>::empty(),
            c.spec_width() == width / 2,
            c.spec_height() == height / 4,
    {
        Canvas { blocks: SparseGrid::new(), width: width / 2, height: height / 4 }
    }

    /// Forget everything written; the configured bounds stay.
    pub fn clear(&mut self)
        ensures
            final(self)@ == Map::<(usize, usize), Pixel>::empty(),
            final(self).spec_width() == old(self).spec_width(),
            final(self).spec_height() == old(self).spec_height(),
    {
        self.blocks.clear();
    }

    /// Write color `c` to pixel (x, y).  A cell holding a text glyph starts
    /// over as two black halves before the written half is colored.
    pub fn set(&mut self, x: usize, y: usize, c: Color)
        ensures
            final(self)@ == map_set(old(self)@, x, y, c),
            final(self).spec_width() == old(self).spec_width(),
            final(self).spec_height() == old(self).spec_height(),
    {
        let col = y / 2;
        let cp = match self.blocks.lookup(x, col) {
            Some(Pixel::Pair(cp)) => cp,
            _ => ColorPair(Color::Black, Color::Black),
        };
        let np = if y % 2 == 0 {
            ColorPair(c, cp.1)
        } else {
            ColorPair(cp.0, c)
        };
        self.blocks.put(x, col, Pixel::Pair(np));
    }

    /// Write black to pixel (x, y).  The cell must not hold a text glyph:
    /// reading or blanking a text cell as a color cell is a caller error.
    pub fn unset(&mut self, x: usize, y: usize)
        requires
            !is_text_cell(old(self)@, x, y),
        ensures
            final(self)@ == map_set(old(self)@, x, y, Color::Black),
            final(self).spec_width() == old(self).spec_width(),
            final(self).spec_height() == old(self).spec_height(),
    {
        self.set(x, y, Color::Black);
    }

    /// The color at pixel (x, y); black where the cell was never written.
    /// The cell must not hold a text glyph.
    pub fn get(&self, x: usize, y: usize) -> (c: Color)
        requires
            !is_text_cell(self@, x, y),
        ensures
            c == map_get(self@, x, y),
    {
        let col = y / 2;
        match self.blocks.lookup(x, col) {
            Some(Pixel::Pair(cp)) => if y % 2 == 0 {
                cp.0
            } else {
                cp.1
            },
            _ => Color::Black,
        }
    }

    /// Write the characters of `s` into consecutive cells along x, starting
    /// at cell (x, y / 2): one character per cell, each replacing whatever
    /// the cell held.
    pub fn text(&mut self, x: usize, y: usize, fg: Color, bg: Color, s: &str)
        requires
            x + s@.len() <= usize::MAX,
        ensures
            final(self)@ == map_text(old(self)@, x, y / 2, fg, bg, s@),
            final(self).spec_width() == old(self).spec_width(),
            final(self).spec_height() == old(self).spec_height(),
    {
        let col = y / 2;
        let n = s.unicode_len();
        let mut i: usize = 0;
        while i < n
            invariant
                i <= n,
                n == s@.len(),
                x + n <= usize::MAX,
                self.blocks@ == map_text(old(self)@, x, col, fg, bg, s@.take(i as int)),
                self.width == old(self).spec_width(),
                self.height == old(self).spec_height(),
            decreases n - i,
        {
            let c = s.get_char(i);
            self.blocks.put(x + i, col, Pixel::Char(ColorPair(bg, fg), c));
            proof {
                let t = s@.take(i + 1 as int);
                assert(t.drop_last() =~= s@.take(i as int));
                assert(t.last() == s@[i as int]);
            }
            i = i + 1;
        }
        proof {
            assert(s@.take(n as int) =~= s@);
        }
    }

    /// Render the canvas, one string per cell row.  The rendered area is the
    /// configured bounds grown to the largest cell ever written: `my + 1`
    /// rows of `mx + 1` cells, each row ending in the full reset escape.
    pub fn rows(&self) -> (r: Vec<String>)
        ensures
            exists|mx: usize, my: usize|
                grown_bound_x(self@, self.spec_width(), mx) && grown_bound_y(
                    self@,
                    self.spec_height(),
                    my,
                ) && r@.len() == my + 1 && (forall|yy: int|
                    0 <= yy <= my ==> r@[yy]@ == row_chars(self@, yy as usize, mx)),
    {
        let mx = self.blocks.max_x(self.width);
        let my = self.blocks.max_y(self.height);
        let mut out: Vec<String> = Vec::new();
        let mut y: usize = 0;
        loop
            invariant_except_break
                y <= my,
                out@.len() == y,
                forall|yy: int| 0 <= yy < y ==> out@[yy]@ == row_chars(self@, yy as usize, mx),
            ensures
                out@.len() == my + 1,
                forall|yy: int| 0 <= yy <= my ==> out@[yy]@ == row_chars(self@, yy as usize, mx),
            decreases my - y,
        {
            let mut row = String::new();
            let mut x: usize = 0;
            loop
                invariant_except_break
                    x <= mx,
                    row@ == row_prefix_chars(self@, y, x as int),
                ensures
                    row@ == row_prefix_chars(self@, y, mx + 1),
                decreases mx - x,
            {
                let p = match self.blocks.lookup(x, y) {
                    Some(p) => p,
                    None => Pixel::Char(ColorPair(Color::Black, Color::Black), ' '),
                };
                push_pixel(&mut row, p);
                if x == mx {
                    break ;
                }
                x = x + 1;
            }
            push_char(&mut row, '\u{1b}');
            push_char(&mut row, '[');
            push_char(&mut row, '0');
            push_char(&mut row, 'm');
            proof {
                assert(row@ =~= row_chars(self@, y, mx));
            }
            out.push(row);
            if y == my {
                break ;
            }
            y = y + 1;
        }
        proof {
            assert(grown_bound_x(self@, self.spec_width(), mx));
            assert(grown_bound_y(self@, self.spec_height(), my));
            assert(exists|a: usize, b: usize|
                grown_bound_x(self@, self.spec_width(), a) && grown_bound_y(
                    self@,
                    self.spec_height(),
                    b,
                ) && out@.len() == b + 1 && (forall|yy: int|
                    0 <= yy <= b ==> out@[yy]@ == row_chars(self@, yy as usize, a)));
        }
        out
    }

    /// Render the canvas as one string: the rows joined by newlines.
    pub fn frame(&self) -> (r: String)
        ensures
            exists|mx: usize, my: usize|
                grown_bound_x(self@, self.spec_width(), mx) && grown_bound_y(
                    self@,
                    self.spec_height(),
                    my,
                ) && r@ == frame_prefix_chars(self@, mx, my + 1),
    {
        let rs = self.rows();
        let ghost (mx, my) = choose|mx: usize, my: usize|
            grown_bound_x(self@, self.spec_width(), mx) && grown_bound_y(
                self@,
                self.spec_height(),
                my,
            ) && rs@.len() == my + 1 && (forall|yy: int|
                0 <= yy <= my ==> rs@[yy]@ == row_chars(self@, yy as usize, mx));
        let n = rs.len();
        let mut out = String::new();
        let mut i: usize = 0;
        while i < n
            invariant
                i <= n,
                n == rs@.len(),
                n == my + 1,
                forall|yy: int| 0 <= yy < n ==> rs@[yy]@ == row_chars(self@, yy as usize, mx),
                out@ == frame_prefix_chars(self@, mx, i as int),
            decreases n - i,
        {
            if i > 0 {
                push_char(&mut out, '\n');
            }
            let srow: &String = &rs[i];
            out.append(srow.as_str());
            proof {
                assert(out@ =~= frame_prefix_chars(self@, mx, i + 1));
            }
            i = i + 1;
        }
        out
    }

    /// The rasterized points of the line from (x1, y1) to (x2, y2), in order.
    pub fn line_vec(&self, x1: usize, y1: usize, x2: usize, y2: usize) -> (pts: Vec<
        (usize, usize),
    >)
        requires
            raster::abs_diff(x1 as int, x2 as int) * raster::span(
                x1 as int,
                y1 as int,
                x2 as int,
                y2 as int,
            ) <= usize::MAX,
            raster::abs_diff(y1 as int, y2 as int) * raster::span(
                x1 as int,
                y1 as int,
                x2 as int,
                y2 as int,
            ) <= usize::MAX,
        ensures
            pts@.len() == raster::span(x1 as int, y1 as int, x2 as int, y2 as int) + 1,
            forall|i: int|
                0 <= i < pts@.len() ==> pts@[i].0 == raster::line_point(
                    x1 as int,
                    y1 as int,
                    x2 as int,
                    y2 as int,
                    i,
                ).0 && pts@[i].1 == raster::line_point(x1 as int, y1 as int, x2 as int, y2 as int, i).1,
    {
        raster::line_points(x1, y1, x2, y2)
    }

    /// Draw the line from (x1, y1) to (x2, y2) in color `c`: write every
    /// rasterized point, in order from endpoint 1 to endpoint 2.
    pub fn line(&mut self, x1: usize, y1: usize, x2: usize, y2: usize, c: Color)
        requires
            raster::abs_diff(x1 as int, x2 as int) * raster::span(
                x1 as int,
                y1 as int,
                x2 as int,
                y2 as int,
            ) <= usize::MAX,
            raster::abs_diff(y1 as int, y2 as int) * raster::span(
                x1 as int,
                y1 as int,
                x2 as int,
                y2 as int,
            ) <= usize::MAX,
        ensures
            final(self)@ == map_line(
                old(self)@,
                x1,
                y1,
                x2,
                y2,
                c,
                raster::span(x1 as int, y1 as int, x2 as int, y2 as int) + 1,
            ),
            final(self).spec_width() == old(self).spec_width(),
            final(self).spec_height() == old(self).spec_height(),
    {
        let pts = raster::line_points(x1, y1, x2, y2);
        let n = pts.len();
        let mut j: usize = 0;
        while j < n
            invariant
                j <= n,
                n == pts@.len(),
                n == raster::span(x1 as int, y1 as int, x2 as int, y2 as int) + 1,
                forall|i: int|
                    0 <= i < n ==> pts@[i].0 == raster::line_point(
                        x1 as int,
                        y1 as int,
                        x2 as int,
                        y2 as int,
                        i,
                    ).0 && pts@[i].1 == raster::line_point(
                        x1 as int,
                        y1 as int,
                        x2 as int,
                        y2 as int,
                        i,
                    ).1,
                self@ == map_line(old(self)@, x1, y1, x2, y2, c, j as int),
                self.spec_width() == old(self).spec_width(),
                self.spec_height() == old(self).spec_height(),
            decreases n - j,
        {
            let p = pts[j];
            self.set(p.0, p.1, c);
            j = j + 1;
        }
    }
}

} // verus!
