//! Dense two-dimensional storage: staggered velocity fields, the occupancy
//! grid, and the occupied-cell set, all backed by flat vectors.

use vstd::prelude::*;
use vstd::pervasive::VecAdditionalExecFns;
use crate::units::MAX_DIM;

verus! {

/// Row-major flat indexing is injective over one grid shape.
pub proof fn lemma_flat_index_injective(w: int, r1: int, c1: int, r2: int, c2: int)
    requires
        0 <= c1 < w,
        0 <= c2 < w,
        0 <= r1,
        0 <= r2,
        r1 * w + c1 == r2 * w + c2,
    ensures
        r1 == r2 && c1 == c2,
{
    assert(r1 == r2 && c1 == c2) by (nonlinear_arith)
        requires
            0 <= c1 < w, 0 <= c2 < w, 0 <= r1, 0 <= r2,
            r1 * w + c1 == r2 * w + c2;
}

/// A row-major flat index stays below the grid's length, and a bounded
/// grid's length fits comfortably in a `usize`.
pub proof fn lemma_flat_index_in_range(h: int, w: int, r: int, c: int)
    requires
        0 <= r < h,
        0 <= c < w,
        h <= MAX_DIM + 1,
        w <= MAX_DIM + 1,
    ensures
        0 <= r * w + c < h * w,
        h * w <= 100_020_001,
{
    assert(0 <= r * w + c < h * w && h * w <= 100_020_001) by (nonlinear_arith)
        requires 0 <= r < h, 0 <= c < w, h <= 10_001, w <= 10_001;
}

/// A bounded grid's length fits comfortably in a `usize`.
pub proof fn lemma_grid_len(h: int, w: int)
    requires
        0 <= h <= MAX_DIM + 1,
        0 <= w <= MAX_DIM + 1,
    ensures
        0 <= h * w <= 100_020_001,
{
    assert(0 <= h * w <= 100_020_001) by (nonlinear_arith)
        requires 0 <= h <= 10_001, 0 <= w <= 10_001;
}

/// A staggered scalar field: `height * width` fixed-point samples.
pub struct Field {
    pub height: usize,
    pub width: usize,
    pub data: Vec<i64>,
}

impl Field {
    /// The shape invariant: the flat vector holds exactly one sample per
    /// lattice point, and the lattice is non-degenerate and bounded.
    pub open spec fn wf(self) -> bool {
        &&& self.data@.len() == self.height * self.width
        &&& 1 <= self.height <= MAX_DIM + 1
        &&& 1 <= self.width <= MAX_DIM + 1
    }

    /// The sample at row `r`, column `c`.
    pub open spec fn at(self, r: int, c: int) -> int {
        self.data@[r * self.width + c] as int
    }

    /// A fresh all-zero field of the given shape.
    pub fn new(height: usize, width: usize) -> (f: Field)
        requires
            1 <= height <= MAX_DIM + 1,
            1 <= width <= MAX_DIM + 1,
        ensures
            f.wf(),
            f.height == height,
            f.width == width,
            forall|r: int, c: int|
                0 <= r < height && 0 <= c < width ==> #[trigger] f.at(r, c) == 0,
    {
        proof {
            lemma_grid_len(height as int, width as int);
        }
        let n = height * width;
        let mut data: Vec<i64> = Vec::new();
        let mut i: usize = 0;
        while i < n
            invariant
                i <= n,
                data@.len() == i,
                forall|k: int| 0 <= k < i ==> data@[k] == 0i64,
            decreases n - i,
        {
            data.push(0);
            i = i + 1;
        }
        let f = Field { height, width, data };
        proof {
            assert forall|r: int, c: int|
                0 <= r < height && 0 <= c < width implies #[trigger] f.at(r, c) == 0 by {
                lemma_flat_index_in_range(height as int, width as int, r, c);
            }
        }
        f
    }

    /// Reads one sample.
    pub fn get(&self, r: usize, c: usize) -> (v: i64)
        requires
            self.wf(),
            r < self.height,
            c < self.width,
        ensures
            v == self.at(r as int, c as int),
    {
        proof {
            lemma_flat_index_in_range(self.height as int, self.width as int, r as int, c as int);
        }
        self.data[r * self.width + c]
    }

    /// Adds `v` into one sample; every other sample is untouched.
    pub fn add_at(&mut self, r: usize, c: usize, v: i64)
        requires
            old(self).wf(),
            r < old(self).height,
            c < old(self).width,
            i64::MIN <= old(self).at(r as int, c as int) + v <= i64::MAX,
        ensures
            final(self).wf(),
            final(self).height == old(self).height,
            final(self).width == old(self).width,
            final(self).at(r as int, c as int) == old(self).at(r as int, c as int) + v,
            forall|r2: int, c2: int|
                0 <= r2 < old(self).height && 0 <= c2 < old(self).width
                    && !(r2 == r as int && c2 == c as int)
                    ==> #[trigger] final(self).at(r2, c2) == old(self).at(r2, c2),
    {
        proof {
            lemma_flat_index_in_range(self.height as int, self.width as int, r as int, c as int);
        }
        let idx = r * self.width + c;
        let cur = self.data[idx];
        self.data.set(idx, cur + v);
        proof {
            assert forall|r2: int, c2: int|
                0 <= r2 < old(self).height && 0 <= c2 < old(self).width
                    && !(r2 == r as int && c2 == c as int)
                    implies #[trigger] final(self).at(r2, c2) == old(self).at(r2, c2) by {
                lemma_flat_index_in_range(self.height as int, self.width as int, r2, c2);
                if r2 * self.width + c2 == r as int * self.width + c as int {
                    lemma_flat_index_injective(self.width as int, r2, c2, r as int, c as int);
                }
            }
        }
    }

    /// Overwrites one sample; every other sample is untouched.
    pub fn set_at(&mut self, r: usize, c: usize, v: i64)
        requires
            old(self).wf(),
            r < old(self).height,
            c < old(self).width,
        ensures
            final(self).wf(),
            final(self).height == old(self).height,
            final(self).width == old(self).width,
            final(self).at(r as int, c as int) == v,
            forall|r2: int, c2: int|
                0 <= r2 < old(self).height && 0 <= c2 < old(self).width
                    && !(r2 == r as int && c2 == c as int)
                    ==> #[trigger] final(self).at(r2, c2) == old(self).at(r2, c2),
    {
        proof {
            lemma_flat_index_in_range(self.height as int, self.width as int, r as int, c as int);
        }
        let idx = r * self.width + c;
        self.data.set(idx, v);
        proof {
            assert forall|r2: int, c2: int|
                0 <= r2 < old(self).height && 0 <= c2 < old(self).width
                    && !(r2 == r as int && c2 == c as int)
                    implies #[trigger] final(self).at(r2, c2) == old(self).at(r2, c2) by {
                lemma_flat_index_in_range(self.height as int, self.width as int, r2, c2);
                if r2 * self.width + c2 == r as int * self.width + c as int {
                    lemma_flat_index_injective(self.width as int, r2, c2, r as int, c as int);
                }
            }
        }
    }
}

/// The per-step output: a dense `rows x cols` grid of byte-wide particle
/// counts.
pub struct Occupancy {
    pub rows: usize,
    pub cols: usize,
    pub data: Vec<u8>,
}

impl Occupancy {
    pub open spec fn wf(self) -> bool {
        &&& self.data@.len() == self.rows * self.cols
        &&& 1 <= self.rows <= MAX_DIM
        &&& 1 <= self.cols <= MAX_DIM
    }

    /// The count at cell row `r`, column `c`.
    pub open spec fn at(self, r: int, c: int) -> int {
        self.data@[r * self.cols + c] as int
    }

    /// A fresh all-zero occupancy grid.
    pub fn new(rows: usize, cols: usize) -> (g: Occupancy)
        requires
            1 <= rows <= MAX_DIM,
            1 <= cols <= MAX_DIM,
        ensures
            g.wf(),
            g.rows == rows,
            g.cols == cols,
            forall|r: int, c: int|
                0 <= r < rows && 0 <= c < cols ==> #[trigger] g.at(r, c) == 0,
    {
        proof {
            lemma_grid_len(rows as int, cols as int);
        }
        let n = rows * cols;
        let mut data: Vec<u8> = Vec::new();
        let mut i: usize = 0;
        while i < n
            invariant
                i <= n,
                data@.len() == i,
                forall|k: int| 0 <= k < i ==> data@[k] == 0u8,
            decreases n - i,
        {
            data.push(0);
            i = i + 1;
        }
        let g = Occupancy { rows, cols, data };
        proof {
            assert forall|r: int, c: int|
                0 <= r < rows && 0 <= c < cols implies #[trigger] g.at(r, c) == 0 by {
                lemma_flat_index_in_range(rows as int, cols as int, r, c);
            }
        }
        g
    }

    /// Counts one more particle in cell `(c, r)`; every other cell is
    /// untouched.
    pub fn increment(&mut self, r: usize, c: usize)
        requires
            old(self).wf(),
            r < old(self).rows,
            c < old(self).cols,
            old(self).at(r as int, c as int) < 255,
        ensures
            final(self).wf(),
            final(self).rows == old(self).rows,
            final(self).cols == old(self).cols,
            final(self).at(r as int, c as int) == old(self).at(r as int, c as int) + 1,
            forall|r2: int, c2: int|
                0 <= r2 < old(self).rows && 0 <= c2 < old(self).cols
                    && !(r2 == r as int && c2 == c as int)
                    ==> #[trigger] final(self).at(r2, c2) == old(self).at(r2, c2),
    {
        proof {
            lemma_flat_index_in_range(self.rows as int, self.cols as int, r as int, c as int);
        }
        let idx = r * self.cols + c;
        let cur = self.data[idx];
        self.data.set(idx, cur + 1);
        proof {
            assert forall|r2: int, c2: int|
                0 <= r2 < old(self).rows && 0 <= c2 < old(self).cols
                    && !(r2 == r as int && c2 == c as int)
                    implies #[trigger] final(self).at(r2, c2) == old(self).at(r2, c2) by {
                lemma_flat_index_in_range(self.rows as int, self.cols as int, r2, c2);
                if r2 * self.cols + c2 == r as int * self.cols + c as int {
                    lemma_flat_index_injective(self.cols as int, r2, c2, r as int, c as int);
                }
            }
        }
    }

    /// The grid as nested rows, the step's outward form.
    pub fn to_rows(&self) -> (g: Vec<Vec<u8>>)
        requires
            self.wf(),
        ensures
            g@.len() == self.rows,
            forall|r: int| 0 <= r < self.rows ==> #[trigger] g@[r]@.len() == self.cols,
            forall|r: int, c: int|
                0 <= r < self.rows && 0 <= c < self.cols
                    ==> #[trigger] g@[r]@[c] == self.at(r, c),
    {
        let mut g: Vec<Vec<u8>> = Vec::new();
        let mut r: usize = 0;
        while r < self.rows
            invariant
                self.wf(),
                r <= self.rows,
                g@.len() == r,
                forall|r2: int| 0 <= r2 < r ==> #[trigger] g@[r2]@.len() == self.cols,
                forall|r2: int, c2: int|
                    0 <= r2 < r && 0 <= c2 < self.cols
                        ==> #[trigger] g@[r2]@[c2] == self.at(r2, c2),
            decreases self.rows - r,
        {
            let mut row: Vec<u8> = Vec::new();
            let mut c: usize = 0;
            while c < self.cols
                invariant
                    self.wf(),
                    r < self.rows,
                    c <= self.cols,
                    row@.len() == c,
                    forall|c2: int| 0 <= c2 < c ==> #[trigger] row@[c2] == self.at(r as int, c2),
                decreases self.cols - c,
            {
                proof {
                    lemma_flat_index_in_range(
                        self.rows as int, self.cols as int, r as int, c as int);
                }
                row.push(self.data[r * self.cols + c]);
                c = c + 1;
            }
            g.push(row);
            r = r + 1;
        }
        g
    }
}

/// The set of grid cells touched by at least one particle, as a dense mask.
pub struct CellSet {
    pub rows: usize,
    pub cols: usize,
    pub data: Vec<bool>,
}

impl CellSet {
    pub open spec fn wf(self) -> bool {
        &&& self.data@.len() == self.rows * self.cols
        &&& 1 <= self.rows <= MAX_DIM
        &&& 1 <= self.cols <= MAX_DIM
    }

    /// Whether cell `(c, r)` is in the set.
    pub open spec fn has(self, c: int, r: int) -> bool {
        self.data@[r * self.cols + c]
    }

    /// A fresh empty set over the given grid shape.
    pub fn new(rows: usize, cols: usize) -> (s: CellSet)
        requires
            1 <= rows <= MAX_DIM,
            1 <= cols <= MAX_DIM,
        ensures
            s.wf(),
            s.rows == rows,
            s.cols == cols,
            forall|c: int, r: int|
                0 <= r < rows && 0 <= c < cols ==> !(#[trigger] s.has(c, r)),
    {
        proof {
            lemma_grid_len(rows as int, cols as int);
        }
        let n = rows * cols;
        let mut data: Vec<bool> = Vec::new();
        let mut i: usize = 0;
        while i < n
            invariant
                i <= n,
                data@.len() == i,
                forall|k: int| 0 <= k < i ==> !(#[trigger] data@[k]),
            decreases n - i,
        {
            data.push(false);
            i = i + 1;
        }
        let s = CellSet { rows, cols, data };
        proof {
            assert forall|c: int, r: int|
                0 <= r < rows && 0 <= c < cols implies !(#[trigger] s.has(c, r)) by {
                lemma_flat_index_in_range(rows as int, cols as int, r, c);
            }
        }
        s
    }

    /// Empties the set; the shape is untouched.
    pub fn clear(&mut self)
        requires
            old(self).wf(),
        ensures
            final(self).wf(),
            final(self).rows == old(self).rows,
            final(self).cols == old(self).cols,
            forall|c: int, r: int|
                0 <= r < old(self).rows && 0 <= c < old(self).cols
                    ==> !(#[trigger] final(self).has(c, r)),
    {
        let fresh = CellSet::new(self.rows, self.cols);
        self.data = fresh.data;
        proof {
            assert forall|c: int, r: int|
                0 <= r < old(self).rows && 0 <= c < old(self).cols
                    implies !(#[trigger] final(self).has(c, r)) by {
                lemma_flat_index_in_range(self.rows as int, self.cols as int, r, c);
                assert(!fresh.has(c, r));
            }
        }
    }

    /// Puts cell `(c, r)` into the set; every other cell is untouched.
    pub fn insert(&mut self, c: usize, r: usize)
        requires
            old(self).wf(),
            r < old(self).rows,
            c < old(self).cols,
        ensures
            final(self).wf(),
            final(self).rows == old(self).rows,
            final(self).cols == old(self).cols,
            final(self).has(c as int, r as int),
            forall|c2: int, r2: int|
                0 <= r2 < old(self).rows && 0 <= c2 < old(self).cols
                    && !(r2 == r as int && c2 == c as int)
                    ==> (#[trigger] final(self).has(c2, r2)) == old(self).has(c2, r2),
    {
        proof {
            lemma_flat_index_in_range(self.rows as int, self.cols as int, r as int, c as int);
        }
        let idx = r * self.cols + c;
        self.data.set(idx, true);
        proof {
            assert forall|c2: int, r2: int|
                0 <= r2 < old(self).rows && 0 <= c2 < old(self).cols
                    && !(r2 == r as int && c2 == c as int)
                    implies (#[trigger] final(self).has(c2, r2)) == old(self).has(c2, r2) by {
                lemma_flat_index_in_range(self.rows as int, self.cols as int, r2, c2);
                if r2 * self.cols + c2 == r as int * self.cols + c as int {
                    lemma_flat_index_injective(self.cols as int, r2, c2, r as int, c as int);
                }
            }
        }
    }

    /// Whether cell `(c, r)` is in the set.
    pub fn contains(&self, c: usize, r: usize) -> (b: bool)
        requires
            self.wf(),
            r < self.rows,
            c < self.cols,
        ensures
            b == self.has(c as int, r as int),
    {
        proof {
            lemma_flat_index_in_range(self.rows as int, self.cols as int, r as int, c as int);
        }
        self.data[r * self.cols + c]
    }
}

} // verus!
