//! Shared line rasterizer: a truncating parametric interpolation between two
//! integer endpoints, used identically by both canvases.  For each step `i`
//! from 0 through the larger coordinate span `r`, the point is the start
//! endpoint moved toward the other by `floor(i * dx / r)` columns and
//! `floor(i * dy / r)` rows.  This is not canonical Bresenham: consecutive
//! steps may repeat a point, which is harmless because drawing is idempotent.

use vstd::prelude::*;
use vstd::arithmetic::div_mod::{lemma_div_is_ordered, lemma_div_multiples_vanish};
use vstd::arithmetic::mul::lemma_mul_inequality;

verus! {

/// Absolute difference of two coordinates.
pub open spec fn abs_diff(a: int, b: int) -> int {
    if a <= b {
        b - a
    } else {
        a - b
    }
}

/// The number of interpolation steps past the first: the larger of the two
/// coordinate spans.
pub open spec fn span(x1: int, y1: int, x2: int, y2: int) -> int {
    let dx = abs_diff(x1, x2);
    let dy = abs_diff(y1, y2);
    if dx >= dy {
        dx
    } else {
        dy
    }
}

/// One interpolated coordinate: start coordinate `a1` moved toward `a2` by
/// `floor(i * d / r)`, where `d` is this axis's span and `r` the larger span.
pub open spec fn step_coord(a1: int, a2: int, r: int, i: int) -> int {
    let d = abs_diff(a1, a2);
    if d == 0 {
        a1
    } else if a1 <= a2 {
        a1 + (i * d) / r
    } else {
        a1 - (i * d) / r
    }
}

/// The point produced at step `i` of rasterizing from (x1, y1) to (x2, y2).
pub open spec fn line_point(x1: int, y1: int, x2: int, y2: int, i: int) -> (int, int) {
    let r = span(x1, y1, x2, y2);
    (step_coord(x1, x2, r, i), step_coord(y1, y2, r, i))
}

/// The whole rasterized segment, in order from endpoint 1 to endpoint 2.
pub open spec fn line_points_seq(x1: int, y1: int, x2: int, y2: int) -> Seq<(int, int)> {
    Seq::new((span(x1, y1, x2, y2) + 1) as nat, |i: int| line_point(x1, y1, x2, y2, i))
}

/// An interpolated coordinate never leaves the closed interval between the
/// two endpoints' coordinates.
proof fn lemma_step_coord_in_range(a1: int, a2: int, r: int, i: int)
    requires
        abs_diff(a1, a2) <= r,
        0 <= i <= r,
    ensures
        if a1 <= a2 {
            a1 <= step_coord(a1, a2, r, i) <= a2
        } else {
            a2 <= step_coord(a1, a2, r, i) <= a1
        },
{
    let d = abs_diff(a1, a2);
    if d != 0 {
        lemma_mul_inequality(i, r, d);
        lemma_div_is_ordered(0, i * d, r);
        lemma_div_is_ordered(i * d, r * d, r);
        lemma_div_multiples_vanish(d, r);
        assert(r * d == d * r) by (nonlinear_arith);
        assert((i * d) / r <= d);
    }
}

/// A zero-length segment rasterizes to exactly one point: its endpoint.
pub proof fn lemma_line_single_point(x: int, y: int)
    ensures
        line_points_seq(x, y, x, y).len() == 1,
        line_points_seq(x, y, x, y)[0] == (x, y),
{
}

/// On an axis whose span is zero or equals the larger span, interpolation is
/// exact, and walking the segment from the other end visits the same
/// coordinate at the mirrored step.
proof fn lemma_step_coord_reverse(a1: int, a2: int, r: int, i: int)
    requires
        0 <= i <= r,
        abs_diff(a1, a2) == 0 || abs_diff(a1, a2) == r,
    ensures
        step_coord(a2, a1, r, i) == step_coord(a1, a2, r, r - i),
{
    let d = abs_diff(a1, a2);
    if d != 0 {
        lemma_div_multiples_vanish(i, r);
        lemma_div_multiples_vanish(r - i, r);
        assert(i * d == r * i) by (nonlinear_arith)
            requires
                d == r,
        ;
        assert((r - i) * d == r * (r - i)) by (nonlinear_arith)
            requires
                d == r,
        ;
    }
}

/// Reversed-endpoint symmetry for horizontal, vertical and exactly diagonal
/// segments: rasterizing from (x2, y2) back to (x1, y1) touches the same set
/// of points as rasterizing from (x1, y1) to (x2, y2), each point at the
/// mirrored step.  Other slopes are not claimed: the truncating interpolation
/// can round differently in the two directions there.
pub proof fn lemma_line_reverse_points(x1: int, y1: int, x2: int, y2: int)
    requires
        abs_diff(x1, x2) == 0 || abs_diff(y1, y2) == 0 || abs_diff(x1, x2) == abs_diff(y1, y2),
    ensures
        line_points_seq(x2, y2, x1, y1).len() == line_points_seq(x1, y1, x2, y2).len(),
        forall|i: int|
            0 <= i < line_points_seq(x1, y1, x2, y2).len() ==> line_points_seq(x2, y2, x1, y1)[i]
                == line_points_seq(x1, y1, x2, y2)[span(x1, y1, x2, y2) - i],
        line_points_seq(x2, y2, x1, y1).to_set() == line_points_seq(x1, y1, x2, y2).to_set(),
{
    let r = span(x1, y1, x2, y2);
    let fwd = line_points_seq(x1, y1, x2, y2);
    let rev = line_points_seq(x2, y2, x1, y1);
    assert(span(x2, y2, x1, y1) == r);
    assert forall|i: int| 0 <= i <= r implies rev[i] == fwd[r - i] by {
        lemma_step_coord_reverse(x1, x2, r, i);
        lemma_step_coord_reverse(y1, y2, r, i);
    }
    assert(rev.to_set() =~= fwd.to_set()) by {
        assert forall|p: (int, int)| rev.to_set().contains(p) implies fwd.to_set().contains(p) by {
            let i = choose|i: int| 0 <= i < rev.len() && rev[i] == p;
            assert(fwd[r - i] == p);
        }
        assert forall|p: (int, int)| fwd.to_set().contains(p) implies rev.to_set().contains(p) by {
            let i = choose|i: int| 0 <= i < fwd.len() && fwd[i] == p;
            assert(rev[r - i] == p);
        }
    }
}

/// Rasterize the segment from (x1, y1) to (x2, y2), both ends included.
///
/// The bounds in `requires` keep every intermediate product `i * span` within
/// the machine word, which is what the computation itself needs.
pub fn line_points(x1: usize, y1: usize, x2: usize, y2: usize) -> (pts: Vec<(usize, usize)>)
    requires
        abs_diff(x1 as int, x2 as int) * span(x1 as int, y1 as int, x2 as int, y2 as int)
            <= usize::MAX,
        abs_diff(y1 as int, y2 as int) * span(x1 as int, y1 as int, x2 as int, y2 as int)
            <= usize::MAX,
    ensures
        pts@.len() == span(x1 as int, y1 as int, x2 as int, y2 as int) + 1,
        forall|i: int|
            0 <= i < pts@.len() ==> pts@[i].0 == line_point(
                x1 as int,
                y1 as int,
                x2 as int,
                y2 as int,
                i,
            ).0 && pts@[i].1 == line_point(x1 as int, y1 as int, x2 as int, y2 as int, i).1,
{
    let ghost gx1 = x1 as int;
    let ghost gy1 = y1 as int;
    let ghost gx2 = x2 as int;
    let ghost gy2 = y2 as int;
    let xdiff = if x1 <= x2 {
        x2 - x1
    } else {
        x1 - x2
    };
    let ydiff = if y1 <= y2 {
        y2 - y1
    } else {
        y1 - y2
    };
    let r = if xdiff >= ydiff {
        xdiff
    } else {
        ydiff
    };
    proof {
        assert(r < usize::MAX) by (nonlinear_arith)
            requires
                r == span(gx1, gy1, gx2, gy2),
                xdiff == abs_diff(gx1, gx2),
                ydiff == abs_diff(gy1, gy2),
                xdiff * r <= usize::MAX,
                ydiff * r <= usize::MAX,
                r == xdiff || r == ydiff,
                usize::MAX >= 2,
        ;
    }
    let mut pts: Vec<(usize, usize)> = Vec::new();
    let mut i: usize = 0;
    while i <= r
        invariant
            r == span(gx1, gy1, gx2, gy2),
            xdiff == abs_diff(gx1, gx2),
            ydiff == abs_diff(gy1, gy2),
            gx1 == x1 as int && gy1 == y1 as int && gx2 == x2 as int && gy2 == y2 as int,
            xdiff * r <= usize::MAX,
            ydiff * r <= usize::MAX,
            r < usize::MAX,
            i <= r + 1,
            pts@.len() == i,
            forall|j: int|
                0 <= j < i ==> pts@[j].0 == line_point(gx1, gy1, gx2, gy2, j).0 && pts@[j].1
                    == line_point(gx1, gy1, gx2, gy2, j).1,
        decreases r + 1 - i,
    {
        proof {
            lemma_mul_inequality(i as int, r as int, xdiff as int);
            lemma_mul_inequality(i as int, r as int, ydiff as int);
            lemma_step_coord_in_range(gx1, gx2, r as int, i as int);
            lemma_step_coord_in_range(gy1, gy2, r as int, i as int);
        }
        let px = if xdiff == 0 {
            x1
        } else {
            let q = (i * xdiff) / r;
            if x1 <= x2 {
                x1 + q
            } else {
                x1 - q
            }
        };
        let py = if ydiff == 0 {
            y1
        } else {
            let q = (i * ydiff) / r;
            if y1 <= y2 {
                y1 + q
            } else {
                y1 - q
            }
        };
        pts.push((px, py));
        i = i + 1;
    }
    pts
}

} // verus!

