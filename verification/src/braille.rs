//! Canvas of Braille dot patterns.  Each character cell packs a 2x4 grid of
//! monochrome sub-pixels into one 8-bit dot mask; pixel coordinate (x, y)
//! addresses cell (x / 2, y / 4) and the bit for (x mod 2, y mod 4).  A cell
//! renders as the Braille character at 0x2800 plus its mask, or as a plain
//! space while the mask is zero, so blank cells stay visually empty.

use vstd::prelude::*;
use crate::grid::{SparseGrid, grown_bound_x, grown_bound_y};
use crate::raster;
use crate::strbuf::{char_from_code, push_char};

verus! {

/// The bit for the dot at (x mod 2, y mod 4), following the Unicode Braille
/// block's dot ordering.
pub open spec fn dot_bit(x: usize, y: usize) -> u8 {
    if y % 4 == 0 {
        if x % 2 == 0 {
            0x01
        } else {
            0x08
        }
    } else if y % 4 == 1 {
        if x % 2 == 0 {
            0x02
        } else {
            0x10
        }
    } else if y % 4 == 2 {
        if x % 2 == 0 {
            0x04
        } else {
            0x20
        }
    } else {
        if x % 2 == 0 {
            0x40
        } else {
            0x80
        }
    }
}

/// The cell a pixel coordinate addresses: column x / 2, row y / 4.
pub open spec fn dot_cell_key(x: usize, y: usize) -> (usize, usize) {
    (x / 2, y / 4)
}

/// The mask of a cell, 0 where the cell was never written.
pub open spec fn mask_at(m: Map<(usize, usize), u8>, k: (usize, usize)) -> u8 {
    if m.contains_key(k) {
        m[k]
    } else {
        0
    }
}

/// The canvas map after setting the pixel at (x, y): the cell's bit is OR-ed
/// in, and the cell is materialized even if it was absent.
pub open spec fn map_dot_set(m: Map<(usize, usize), u8>, x: usize, y: usize) -> Map<
    (usize, usize),
    u8,
> {
    m.insert(dot_cell_key(x, y), mask_at(m, dot_cell_key(x, y)) | dot_bit(x, y))
}

/// The canvas map after deleting the pixel at (x, y): the cell's bit is
/// cleared, and the cell is materialized even if it was absent.
pub open spec fn map_dot_unset(m: Map<(usize, usize), u8>, x: usize, y: usize) -> Map<
    (usize, usize),
    u8,
> {
    m.insert(dot_cell_key(x, y), mask_at(m, dot_cell_key(x, y)) & !dot_bit(x, y))
}

/// The canvas map after toggling the pixel at (x, y): the cell's bit is
/// XOR-ed, and the cell is materialized even if it was absent.
pub open spec fn map_dot_toggle(m: Map<(usize, usize), u8>, x: usize, y: usize) -> Map<
    (usize, usize),
    u8,
> {
    m.insert(dot_cell_key(x, y), mask_at(m, dot_cell_key(x, y)) ^ dot_bit(x, y))
}

/// Whether the pixel at (x, y) is set; false where the cell is absent.
pub open spec fn map_dot_get(m: Map<(usize, usize), u8>, x: usize, y: usize) -> bool {
    m.contains_key(dot_cell_key(x, y)) && m[dot_cell_key(x, y)] & dot_bit(x, y) != 0
}

/// Setting a pixel makes it read back as set, on any canvas contents.
pub proof fn lemma_set_then_get(m: Map<(usize, usize), u8>, x: usize, y: usize)
    ensures
        map_dot_get(map_dot_set(m, x, y), x, y),
{
    let a = mask_at(m, dot_cell_key(x, y));
    let b = dot_bit(x, y);
    assert((a | b) & b != 0) by (bit_vector)
        requires
            b != 0,
    ;
}

/// Deleting a pixel makes it read back as unset, on any canvas contents.
pub proof fn lemma_unset_then_get(m: Map<(usize, usize), u8>, x: usize, y: usize)
    ensures
        !map_dot_get(map_dot_unset(m, x, y), x, y),
{
    let a = mask_at(m, dot_cell_key(x, y));
    let b = dot_bit(x, y);
    assert((a & !b) & b == 0) by (bit_vector);
}

/// Toggling a pixel twice reads back as it did before: toggling is an
/// involution on the pixel's value.
pub proof fn lemma_toggle_twice(m: Map<(usize, usize), u8>, x: usize, y: usize)
    ensures
        map_dot_get(map_dot_toggle(map_dot_toggle(m, x, y), x, y), x, y) == map_dot_get(m, x, y),
{
    let a = mask_at(m, dot_cell_key(x, y));
    let b = dot_bit(x, y);
    assert((a ^ b) ^ b == a) by (bit_vector);
    assert((0 as u8) & b == 0) by (bit_vector);
}

/// Toggling a set pixel unsets it, and an unset one sets it.
pub proof fn lemma_toggle_flips(m: Map<(usize, usize), u8>, x: usize, y: usize)
    ensures
        map_dot_get(map_dot_toggle(m, x, y), x, y) == !map_dot_get(m, x, y),
{
    let a = mask_at(m, dot_cell_key(x, y));
    let b = dot_bit(x, y);
    assert(((a ^ b) & b != 0) == (a & b == 0)) by (bit_vector)
        requires
            b == 0x01 || b == 0x02 || b == 0x04 || b == 0x08 || b == 0x10 || b == 0x20 || b == 0x40
                || b == 0x80,
    ;
    assert((0 as u8) & b == 0) by (bit_vector);
}

/// On a cleared canvas every pixel reads back as unset.
pub proof fn lemma_empty_reads_unset(x: usize, y: usize)
    ensures
        !map_dot_get(Map::<(usize, usize), u8>::empty(), x, y),
{
}

/// The character a cell renders as: a space for mask 0, otherwise the
/// Braille pattern at code point 0x2800 + mask.
pub open spec fn braille_glyph(mask: u8) -> char {
    if mask == 0 {
        ' '
    } else {
        (0x2800 + mask as u32) as char
    }
}

/// The first `n` cells of row `y`, rendered: one character per cell.
pub open spec fn row_prefix_chars(m: Map<(usize, usize), u8>, y: usize, n: int) -> Seq<char>
    decreases n,
{
    if n <= 0 {
        Seq::empty()
    } else {
        row_prefix_chars(m, y, n - 1) + seq![braille_glyph(mask_at(m, ((n - 1) as usize, y)))]
    }
}

/// One whole rendered row: every cell through column `mx`.
pub open spec fn row_chars(m: Map<(usize, usize), u8>, y: usize, mx: usize) -> Seq<char> {
    row_prefix_chars(m, y, mx + 1)
}

/// The first `n` rendered rows, joined by newlines.
pub open spec fn frame_prefix_chars(m: Map<(usize, usize), u8>, mx: usize, n: int) -> Seq<char>
    decreases n,
{
    if n <= 0 {
        Seq::empty()
    } else if n == 1 {
        row_chars(m, 0, mx)
    } else {
        frame_prefix_chars(m, mx, n - 1) + seq!['\n'] + row_chars(m, (n - 1) as usize, mx)
    }
}

/// The canvas map after setting the first `n` rasterized points of the line
/// from (x1, y1) to (x2, y2), in order.
pub open spec fn map_dot_line(
    m: Map<(usize, usize), u8>,
    x1: usize,
    y1: usize,
    x2: usize,
    y2: usize,
    n: int,
) -> Map<(usize, usize), u8>
    decreases n,
{
    if n <= 0 {
        m
    } else {
        let p = raster::line_point(x1 as int, y1 as int, x2 as int, y2 as int, n - 1);
        map_dot_set(map_dot_line(m, x1, y1, x2, y2, n - 1), p.0 as usize, p.1 as usize)
    }
}

/// A set pixel stays set when any pixel is set afterwards: setting only ever
/// adds bits to a cell's mask.
pub proof fn lemma_set_preserves_set(
    m: Map<(usize, usize), u8>,
    x: usize,
    y: usize,
    x2: usize,
    y2: usize,
)
    requires
        map_dot_get(m, x2, y2),
    ensures
        map_dot_get(map_dot_set(m, x, y), x2, y2),
{
    if dot_cell_key(x2, y2) == dot_cell_key(x, y) {
        let a = mask_at(m, dot_cell_key(x, y));
        let b = dot_bit(x, y);
        let b2 = dot_bit(x2, y2);
        assert(a & b2 != 0 ==> (a | b) & b2 != 0) by (bit_vector);
    }
}

/// Once a whole line has been drawn, every one of its rasterized points
/// reads back as set.
pub proof fn lemma_line_sets_points(
    m: Map<(usize, usize), u8>,
    x1: usize,
    y1: usize,
    x2: usize,
    y2: usize,
    n: int,
    i: int,
)
    requires
        0 <= i < n,
    ensures
        ({
            let p = raster::line_point(x1 as int, y1 as int, x2 as int, y2 as int, i);
            map_dot_get(map_dot_line(m, x1, y1, x2, y2, n), p.0 as usize, p.1 as usize)
        }),
    decreases n,
{
    let p = raster::line_point(x1 as int, y1 as int, x2 as int, y2 as int, i);
    let q = raster::line_point(x1 as int, y1 as int, x2 as int, y2 as int, n - 1);
    let prev = map_dot_line(m, x1, y1, x2, y2, n - 1);
    if i == n - 1 {
        lemma_set_then_get(prev, q.0 as usize, q.1 as usize);
    } else {
        lemma_line_sets_points(m, x1, y1, x2, y2, n - 1, i);
        lemma_set_preserves_set(prev, q.0 as usize, q.1 as usize, p.0 as usize, p.1 as usize);
    }
}

/// The exec bit for a dot position.
fn dot_bit_of(x: usize, y: usize) -> (b: u8)
    ensures
        b == dot_bit(x, y),
{
    let ym = y % 4;
    let xm = x % 2;
    if ym == 0 {
        if xm == 0 {
            0x01
        } else {
            0x08
        }
    } else if ym == 1 {
        if xm == 0 {
            0x02
        } else {
            0x10
        }
    } else if ym == 2 {
        if xm == 0 {
            0x04
        } else {
            0x20
        }
    } else {
        if xm == 0 {
            0x40
        } else {
            0x80
        }
    }
}

/// The exec glyph of a cell mask.
fn glyph_of(mask: u8) -> (c: char)
    ensures
        c == braille_glyph(mask),
{
    if mask == 0 {
        ' '
    } else {
        let u: u32 = 0x2800 + mask as u32;
        let c = char_from_code(u);
        proof {
            assert(c == ((c as u32) as char));
        }
        c
    }
}

/// The canvas itself: a sparse grid of cell masks plus the configured
/// minimum bounds, in cell units.
pub struct Canvas {
    chars: SparseGrid<u8>,
    width: usize,
    height: usize,
}

impl View for Canvas {
    type V = Map<(usize, usize), u8>;

    closed spec fn view(&self) -> Map<(usize, usize), u8> {
        self.chars@
    }
}

impl Canvas {
    /// The configured minimum width, in cell units.
    pub closed spec fn spec_width(&self) -> usize {
        self.width
    }

    /// The configured minimum height, in cell units.
    pub closed spec fn spec_height(&self) -> usize {
        self.height
    }

    /// A canvas of the given size in pixel units: width / 2 columns and
    /// height / 4 rows of cells, with nothing written.  Drawing outside the
    /// given size still lands on the canvas and grows the rendered area.
    pub fn new(width: usize, height: usize) -> (c: Canvas)
        ensures
            c@ == Map::<(usize, usize), u8>::empty(),
            c.spec_width() == width / 2,
            c.spec_height() == height / 4,
    {
        Canvas { chars: SparseGrid::new(), width: width / 2, height: height / 4 }
    }

    /// Forget everything written; the configured bounds stay.
    pub fn clear(&mut self)
        ensures
            final(self)@ == Map::<(usize, usize), u8>::empty(),
            final(self).spec_width() == old(self).spec_width(),
            final(self).spec_height() == old(self).spec_height(),
    {
        self.chars.clear();
    }

    /// Set the configured minimum width directly in cell units.  The
    /// constructor, by contrast, takes pixel units; the two conventions are
    /// deliberately separate entry points.
    pub fn set_cell_width(&mut self, width: usize)
        ensures
            final(self)@ == old(self)@,
            final(self).spec_width() == width,
            final(self).spec_height() == old(self).spec_height(),
    {
        self.width = width;
    }

    /// Set the configured minimum height directly in cell units.
    pub fn set_cell_height(&mut self, height: usize)
        ensures
            final(self)@ == old(self)@,
            final(self).spec_width() == old(self).spec_width(),
            final(self).spec_height() == height,
    {
        self.height = height;
    }

    /// Set the pixel at (x, y).
    pub fn set(&mut self, x: usize, y: usize)
        ensures
            final(self)@ == map_dot_set(old(self)@, x, y),
            final(self).spec_width() == old(self).spec_width(),
            final(self).spec_height() == old(self).spec_height(),
    {
        let row = x / 2;
        let col = y / 4;
        let mask: u8 = match self.chars.lookup(row, col) {
            Some(m) => m,
            None => 0,
        };
        let b = dot_bit_of(x, y);
        self.chars.put(row, col, mask | b);
    }

    /// Delete the pixel at (x, y).
    pub fn unset(&mut self, x: usize, y: usize)
        ensures
            final(self)@ == map_dot_unset(old(self)@, x, y),
            final(self).spec_width() == old(self).spec_width(),
            final(self).spec_height() == old(self).spec_height(),
    {
        let row = x / 2;
        let col = y / 4;
        let mask: u8 = match self.chars.lookup(row, col) {
            Some(m) => m,
            None => 0,
        };
        let b = dot_bit_of(x, y);
        self.chars.put(row, col, mask & !b);
    }

    /// Toggle the pixel at (x, y).
    pub fn toggle(&mut self, x: usize, y: usize)
        ensures
            final(self)@ == map_dot_toggle(old(self)@, x, y),
            final(self).spec_width() == old(self).spec_width(),
            final(self).spec_height() == old(self).spec_height(),
    {
        let row = x / 2;
        let col = y / 4;
        let mask: u8 = match self.chars.lookup(row, col) {
            Some(m) => m,
            None => 0,
        };
        let b = dot_bit_of(x, y);
        self.chars.put(row, col, mask ^ b);
    }

    /// Whether the pixel at (x, y) is set.
    pub fn get(&self, x: usize, y: usize) -> (r: bool)
        ensures
            r == map_dot_get(self@, x, y),
    {
        let row = x / 2;
        let col = y / 4;
        let b = dot_bit_of(x, y);
        match self.chars.lookup(row, col) {
            Some(m) => m & b != 0,
            None => false,
        }
    }

    /// Render the canvas, one string per cell row (so each row stands for
    /// four pixel rows).  The rendered area is the configured bounds grown to
    /// the largest cell ever written: `my + 1` rows of `mx + 1` cells.
    pub fn rows(&self) -> (r: Vec<String>)
        ensures
            exists|mx: usize, my: usize|
                grown_bound_x(self@, self.spec_width(), mx) && grown_bound_y(
                    self@,
                    self.spec_height(),
                    my,
                ) && r@.len() == my + 1 && (forall|yy: int|
                    0 <= yy <= my ==> r@[yy]@ == row_chars(self@, yy as usize, mx)),
    {
        let mx = self.chars.max_x(self.width);
        let my = self.chars.max_y(self.height);
        let mut out: Vec<String> = Vec::new();
        let mut y: usize = 0;
        loop
            invariant_except_break
                y <= my,
                out@.len() == y,
                forall|yy: int| 0 <= yy < y ==> out@[yy]@ == row_chars(self@, yy as usize, mx),
            ensures
                out@.len() == my + 1,
                forall|yy: int| 0 <= yy <= my ==> out@[yy]@ == row_chars(self@, yy as usize, mx),
            decreases my - y,
        {
            let mut row = String::new();
            let mut x: usize = 0;
            loop
                invariant_except_break
                    x <= mx,
                    row@ == row_prefix_chars(self@, y, x as int),
                ensures
                    row@ == row_prefix_chars(self@, y, mx + 1),
                decreases mx - x,
            {
                let mask: u8 = match self.chars.lookup(x, y) {
                    Some(m) => m,
                    None => 0,
                };
                push_char(&mut row, glyph_of(mask));
                if x == mx {
                    break ;
                }
                x = x + 1;
            }
            out.push(row);
            if y == my {
                break ;
            }
            y = y + 1;
        }
        proof {
            assert(grown_bound_x(self@, self.spec_width(), mx));
            assert(grown_bound_y(self@, self.spec_height(), my));
            assert(exists|a: usize, b: usize|
                grown_bound_x(self@, self.spec_width(), a) && grown_bound_y(
                    self@,
                    self.spec_height(),
                    b,
                ) && out@.len() == b + 1 && (forall|yy: int|
                    0 <= yy <= b ==> out@[yy]@ == row_chars(self@, yy as usize, a)));
        }
        out
    }

    /// Render the canvas as one string: the rows joined by newlines.
    pub fn frame(&self) -> (r: String)
        ensures
            exists|mx: usize, my: usize|
                grown_bound_x(self@, self.spec_width(), mx) && grown_bound_y(
                    self@,
                    self.spec_height(),
                    my,
                ) && r@ == frame_prefix_chars(self@, mx, my + 1),
    {
        let rs = self.rows();
        let ghost (mx, my) = choose|mx: usize, my: usize|
            grown_bound_x(self@, self.spec_width(), mx) && grown_bound_y(
                self@,
                self.spec_height(),
                my,
            ) && rs@.len() == my + 1 && (forall|yy: int|
                0 <= yy <= my ==> rs@[yy]@ == row_chars(self@, yy as usize, mx));
        let n = rs.len();
        let mut out = String::new();
        let mut i: usize = 0;
        while i < n
            invariant
                i <= n,
                n == rs@.len(),
                n == my + 1,
                forall|yy: int| 0 <= yy < n ==> rs@[yy]@ == row_chars(self@, yy as usize, mx),
                out@ == frame_prefix_chars(self@, mx, i as int),
            decreases n - i,
        {
            if i > 0 {
                push_char(&mut out, '\n');
            }
            let srow: &String = &rs[i];
            out.append(srow.as_str());
            proof {
                assert(out@ =~= frame_prefix_chars(self@, mx, i + 1));
            }
            i = i + 1;
        }
        out
    }

    /// Draw the line from (x1, y1) to (x2, y2): set every rasterized point,
    /// in order from endpoint 1 to endpoint 2.
    pub fn line(&mut self, x1: usize, y1: usize, x2: usize, y2: usize)
        requires
            raster::abs_diff(x1 as int, x2 as int) * raster::span(
                x1 as int,
                y1 as int,
                x2 as int,
                y2 as int,
            ) <= usize::MAX,
            raster::abs_diff(y1 as int, y2 as int) * raster::span(
                x1 as int,
                y1 as int,
                x2 as int,
                y2 as int,
            ) <= usize::MAX,
        ensures
            final(self)@ == map_dot_line(
                old(self)@,
                x1,
                y1,
                x2,
                y2,
                raster::span(x1 as int, y1 as int, x2 as int, y2 as int) + 1,
            ),
            final(self).spec_width() == old(self).spec_width(),
            final(self).spec_height() == old(self).spec_height(),
    {
        let pts = raster::line_points(x1, y1, x2, y2);
        let n = pts.len();
        let mut j: usize = 0;
        while j < n
            invariant
                j <= n,
                n == pts@.len(),
                n == raster::span(x1 as int, y1 as int, x2 as int, y2 as int) + 1,
                forall|i: int|
                    0 <= i < n ==> pts@[i].0 == raster::line_point(
                        x1 as int,
                        y1 as int,
                        x2 as int,
                        y2 as int,
                        i,
                    ).0 && pts@[i].1 == raster::line_point(
                        x1 as int,
                        y1 as int,
                        x2 as int,
                        y2 as int,
                        i,
                    ).1,
                self@ == map_dot_line(old(self)@, x1, y1, x2, y2, j as int),
                self.spec_width() == old(self).spec_width(),
                self.spec_height() == old(self).spec_height(),
            decreases n - j,
        {
            let p = pts[j];
            self.set(p.0, p.1);
            j = j + 1;
        }
    }
}

} // verus!
