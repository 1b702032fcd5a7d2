//! Sparse cell grid shared by both canvases: a map from cell coordinates
//! (column, row) to cell contents, where a cell that was never written is
//! absent.  The grid is stored as an association list in which a later entry
//! for a key shadows any earlier one, so an insertion is a single push.

use vstd::prelude::*;

verus! {

/// The map denoted by an association list: entries are applied left to right,
/// so the rightmost entry for a key wins.
pub open spec fn map_of<T>(s: Seq<((usize, usize), T)>) -> Map<(usize, usize), T>
    decreases s.len(),
{
    if s.len() == 0 {
        Map::empty()
    } else {
        map_of(s.drop_last()).insert(s.last().0, s.last().1)
    }
}

/// A key is in the map exactly when some entry carries it.
pub proof fn lemma_map_of_contains<T>(s: Seq<((usize, usize), T)>)
    ensures
        forall|k: (usize, usize)|
            map_of(s).contains_key(k) <==> exists|i: int| 0 <= i < s.len() && s[i].0 == k,
    decreases s.len(),
{
    if s.len() == 0 {
    } else {
        lemma_map_of_contains(s.drop_last());
        assert(map_of(s) == map_of(s.drop_last()).insert(s.last().0, s.last().1));
        assert forall|k: (usize, usize)| map_of(s).contains_key(k) implies exists|i: int|
            0 <= i < s.len() && s[i].0 == k by {
            if k == s.last().0 {
                assert(s[s.len() - 1].0 == k);
            } else {
                assert(map_of(s.drop_last()).contains_key(k));
                let i = choose|i: int| 0 <= i < s.drop_last().len() && s.drop_last()[i].0 == k;
                assert(s.drop_last()[i] == s[i]);
                assert(s[i].0 == k);
            }
        }
        assert forall|k: (usize, usize)| (exists|i: int| 0 <= i < s.len() && s[i].0 == k)
            implies map_of(s).contains_key(k) by {
            let i = choose|i: int| 0 <= i < s.len() && s[i].0 == k;
            if i < s.len() - 1 {
                assert(s.drop_last()[i].0 == k);
            }
        }
    }
}

/// The value at a key comes from the last entry that carries it.
pub proof fn lemma_map_of_last_match<T>(s: Seq<((usize, usize), T)>, i: int)
    requires
        0 <= i < s.len(),
        forall|j: int| i < j < s.len() ==> s[j].0 != s[i].0,
    ensures
        map_of(s).contains_key(s[i].0),
        map_of(s)[s[i].0] == s[i].1,
    decreases s.len(),
{
    if i == s.len() - 1 {
    } else {
        assert(s.drop_last()[i] == s[i]);
        lemma_map_of_last_match(s.drop_last(), i);
        assert(s.last().0 != s[i].0);
    }
}

/// `b` is the effective bound along x: the configured minimum `lo` grown to
/// the largest column ever written.
pub open spec fn grown_bound_x<T>(m: Map<(usize, usize), T>, lo: usize, b: usize) -> bool {
    &&& b >= lo
    &&& forall|k: (usize, usize)| m.contains_key(k) ==> k.0 <= b
    &&& b == lo || exists|k: (usize, usize)| m.contains_key(k) && k.0 == b
}

/// `b` is the effective bound along y: the configured minimum `lo` grown to
/// the largest row ever written.
pub open spec fn grown_bound_y<T>(m: Map<(usize, usize), T>, lo: usize, b: usize) -> bool {
    &&& b >= lo
    &&& forall|k: (usize, usize)| m.contains_key(k) ==> k.1 <= b
    &&& b == lo || exists|k: (usize, usize)| m.contains_key(k) && k.1 == b
}

/// The effective bounds are determined by the map and the configured minimum.
pub proof fn lemma_grown_bound_unique<T>(m: Map<(usize, usize), T>, lo: usize, b1: usize, b2: usize)
    requires
        grown_bound_x(m, lo, b1) && grown_bound_x(m, lo, b2) || grown_bound_y(m, lo, b1)
            && grown_bound_y(m, lo, b2),
    ensures
        b1 == b2,
{
}

/// On a grid with nothing written, the effective bounds are the configured
/// minimums.
pub proof fn lemma_grown_bound_empty<T>(lo: usize, b: usize)
    requires
        grown_bound_x(Map::<(usize, usize), T>::empty(), lo, b) || grown_bound_y(
            Map::<(usize, usize), T>::empty(),
            lo,
            b,
        ),
    ensures
        b == lo,
{
}

/// Sparse grid of cells keyed by (column, row); absent cells are defaults.
pub struct SparseGrid<T> {
    entries: Vec<((usize, usize), T)>,
}

impl<T> View for SparseGrid<T> {
    type V = Map<(usize, usize), T>;

    closed spec fn view(&self) -> Map<(usize, usize), T> {
        map_of(self.entries@)
    }
}

impl<T: Copy> SparseGrid<T> {
    /// A grid with no cell written.
    pub fn new() -> (g: Self)
        ensures
            g@ == Map::<(usize, usize), T>::empty(),
    {
        SparseGrid { entries: Vec::new() }
    }

    /// Write the cell at (x, y), creating it if absent.
    pub fn put(&mut self, x: usize, y: usize, v: T)
        ensures
            final(self)@ == old(self)@.insert((x, y), v),
    {
        self.entries.push(((x, y), v));
        proof {
            assert(self.entries@.drop_last() =~= old(self).entries@);
        }
    }

    /// Read the cell at (x, y), or None if it was never written.
    pub fn lookup(&self, x: usize, y: usize) -> (r: Option<T>)
        ensures
            self@.contains_key((x, y)) ==> r == Some(self@[(x, y)]),
            !self@.contains_key((x, y)) ==> r is None,
    {
        let n = self.entries.len();
        let mut i: usize = n;
        while i > 0
            invariant
                i <= n,
                n == self.entries.len(),
                forall|j: int| i <= j < n ==> self.entries@[j].0 != (x, y),
            decreases i,
        {
            i = i - 1;
            let e = &self.entries[i];
            if e.0.0 == x && e.0.1 == y {
                proof {
                    lemma_map_of_last_match(self.entries@, i as int);
                }
                return Some(e.1);
            }
        }
        proof {
            lemma_map_of_contains(self.entries@);
        }
        None
    }

    /// Forget every cell.
    pub fn clear(&mut self)
        ensures
            final(self)@ == Map::<(usize, usize), T>::empty(),
    {
        self.entries.clear();
    }

    /// The largest column of any written cell, but at least `lo`.
    pub fn max_x(&self, lo: usize) -> (r: usize)
        ensures
            grown_bound_x(self@, lo, r),
    {
        let n = self.entries.len();
        let mut r: usize = lo;
        let mut i: usize = 0;
        while i < n
            invariant
                i <= n,
                n == self.entries.len(),
                r >= lo,
                forall|j: int| 0 <= j < i ==> self.entries@[j].0.0 <= r,
                r == lo || exists|j: int| 0 <= j < i && self.entries@[j].0.0 == r,
            decreases n - i,
        {
            if self.entries[i].0.0 > r {
                r = self.entries[i].0.0;
            }
            i = i + 1;
        }
        proof {
            lemma_map_of_contains(self.entries@);
            assert forall|k: (usize, usize)| self@.contains_key(k) implies k.0 <= r by {
                let j = choose|j: int| 0 <= j < self.entries@.len() && self.entries@[j].0 == k;
                assert(self.entries@[j].0.0 <= r);
            }
            if r != lo {
                let j = choose|j: int| 0 <= j < self.entries@.len() && self.entries@[j].0.0 == r;
                assert(self@.contains_key(self.entries@[j].0));
            }
        }
        r
    }

    /// The largest row of any written cell, but at least `lo`.
    pub fn max_y(&self, lo: usize) -> (r: usize)
        ensures
            grown_bound_y(self@, lo, r),
    {
        let n = self.entries.len();
        let mut r: usize = lo;
        let mut i: usize = 0;
        while i < n
            invariant
                i <= n,
                n == self.entries.len(),
                r >= lo,
                forall|j: int| 0 <= j < i ==> self.entries@[j].0.1 <= r,
                r == lo || exists|j: int| 0 <= j < i && self.entries@[j].0.1 == r,
            decreases n - i,
        {
            if self.entries[i].0.1 > r {
                r = self.entries[i].0.1;
            }
            i = i + 1;
        }
        proof {
            lemma_map_of_contains(self.entries@);
            assert forall|k: (usize, usize)| self@.contains_key(k) implies k.1 <= r by {
                let j = choose|j: int| 0 <= j < self.entries@.len() && self.entries@[j].0 == k;
                assert(self.entries@[j].0.1 <= r);
            }
            if r != lo {
                let j = choose|j: int| 0 <= j < self.entries@.len() && self.entries@[j].0.1 == r;
                assert(self@.contains_key(self.entries@[j].0));
            }
        }
        r
    }
}

} // verus!
