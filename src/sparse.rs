//! The sparse backing: one map from column to count per row, holding only
//! the cells that have been visited.
use vstd::prelude::*;
use std::collections::HashMap;
use crate::cells::{
    blank, bumped, is_peak, lemma_index_unique, lemma_join_index, lemma_peak_after_write,
    lemma_split_index, saturating_bump,
};

verus! {

broadcast use vstd::std_specs::hash::group_hash_axioms;

/// The count that a row map gives column `c`: absent columns count 0.
pub open spec fn row_cell(m: Map<u32, u16>, c: int) -> u16 {
    if m.contains_key(c as u32) {
        m[c as u32]
    } else {
        0
    }
}

/// Per-row maps from column to a non-zero saturating count.
pub struct SparseGrid {
    width: usize,
    height: usize,
    rows: Vec<HashMap<u32, u16>>,
    peak: u16,
}

impl View for SparseGrid {
    type V = Seq<u16>;

    closed spec fn view(&self) -> Seq<u16> {
        Seq::new(
            (self.width * self.height) as nat,
            |i: int| row_cell(self.rows@[i / self.width as int]@, i % self.width as int),
        )
    }
}

impl SparseGrid {
    pub closed spec fn spec_width(&self) -> nat {
        self.width as nat
    }

    pub closed spec fn spec_height(&self) -> nat {
        self.height as nat
    }

    /// The rows are laid out right and `peak` is the largest count.
    pub closed spec fn wf(&self) -> bool {
        self.layout_ok() && is_peak(self@, self.peak)
    }

    /// One map per row; every stored column lies inside the grid and every
    /// stored count is non-zero, so an unvisited cell takes no memory.
    pub closed spec fn layout_ok(&self) -> bool {
        &&& self.rows@.len() == self.height
        &&& self.width * self.height <= usize::MAX
        &&& self.width <= u32::MAX + 1
        &&& forall|r: int, k: u32|
            0 <= r < self.height && #[trigger] self.rows@[r]@.contains_key(k) ==> (k as int)
                < self.width && self.rows@[r]@[k] > 0
    }

    /// A grid of `width * height` zero counters, with every row map empty.
    pub fn new(width: usize, height: usize) -> (g: Self)
        requires
            width * height <= usize::MAX,
            width <= u32::MAX + 1,
        ensures
            g.wf(),
            g.spec_width() == width,
            g.spec_height() == height,
            g@ == blank((width * height) as nat),
    {
        let mut rows: Vec<HashMap<u32, u16>> = Vec::with_capacity(height);
        for r in 0..height
            invariant
                rows@.len() == r,
                forall|j: int| 0 <= j < r ==> (#[trigger] rows@[j])@ == Map::<u32, u16>::empty(),
        {
            rows.push(HashMap::new());
        }
        let g = SparseGrid { width, height, rows, peak: 0 };
        assert forall|i: int| 0 <= i < width * height implies g@[i] == 0u16 by {
            lemma_split_index(i, width as int, height as int);
        }
        assert(g@ =~= blank((width * height) as nat));
        g
    }

    pub fn width(&self) -> (r: usize)
        ensures
            r == self.spec_width(),
    {
        self.width
    }

    pub fn height(&self) -> (r: usize)
        ensures
            r == self.spec_height(),
    {
        self.height
    }

    /// The count at flat index `idx`, or 0 past the end of the grid.
    pub fn get(&self, idx: usize) -> (r: u16)
        requires
            self.wf(),
        ensures
            r == if idx < self@.len() { self@[idx as int] } else { 0 },
    {
        if idx >= self.width * self.height {
            return 0;
        }
        self.cell(idx)
    }

    /// Overwrites the count at `idx`; a zero removes the column from its row.
    /// An index past the end changes nothing.
    pub fn set(&mut self, idx: usize, value: u16)
        requires
            old(self).wf(),
        ensures
            final(self).wf(),
            final(self).spec_width() == old(self).spec_width(),
            final(self).spec_height() == old(self).spec_height(),
            final(self)@ == if idx < old(self)@.len() {
                old(self)@.update(idx as int, value)
            } else {
                old(self)@
            },
    {
        if self.width == 0 || idx >= self.width * self.height {
            return;
        }
        proof {
            lemma_split_index(idx as int, self.width as int, self.height as int);
        }
        let row = idx / self.width;
        let col = (idx % self.width) as u32;
        let ghost before = *self;
        let current: u16 = match self.rows[row].get(&col) {
            Some(v) => *v,
            None => 0,
        };
        if value == 0 {
            self.rows[row].remove(&col);
        } else {
            self.rows[row].insert(col, value);
        }
        proof {
            self.lemma_after_store(before, idx as int, value);
        }
        if value >= current || current < self.peak {
            proof {
                lemma_peak_after_write(before@, before.peak, idx as int, value);
            }
            if value > self.peak {
                self.peak = value;
            }
        } else {
            self.peak = self.scan_max();
        }
    }

    /// The largest count, found by visiting every cell.
    fn scan_max(&self) -> (r: u16)
        requires
            self.layout_ok(),
        ensures
            is_peak(self@, r),
    {
        let total = self.width * self.height;
        let mut best: u16 = 0;
        let ghost mut at: int = 0;
        for i in 0..total
            invariant
                self.layout_ok(),
                total == self@.len(),
                forall|j: int| 0 <= j < i ==> self@[j] <= best,
                best == 0 || (0 <= at < i && self@[at] == best),
        {
            let v = self.cell(i);
            if v > best {
                best = v;
                proof {
                    at = i as int;
                }
            }
        }
        best
    }

    /// The count at flat index `idx`, which lies inside the grid.
    fn cell(&self, idx: usize) -> (r: u16)
        requires
            self.layout_ok(),
            idx < self@.len(),
        ensures
            r == self@[idx as int],
    {
        proof {
            lemma_split_index(idx as int, self.width as int, self.height as int);
        }
        let row = idx / self.width;
        let col = (idx % self.width) as u32;
        match self.rows[row].get(&col) {
            Some(v) => *v,
            None => 0,
        }
    }

    /// The largest count in the grid (0 while nothing was counted).
    pub fn max_count(&self) -> (r: u16)
        requires
            self.wf(),
        ensures
            is_peak(self@, r),
    {
        self.peak
    }

    /// Adds one visit at `idx`, saturating; tells whether the cell was empty
    /// before. An index past the end changes nothing and returns false.
    pub fn increment(&mut self, idx: usize) -> (lit: bool)
        requires
            old(self).wf(),
        ensures
            final(self).wf(),
            final(self).spec_width() == old(self).spec_width(),
            final(self).spec_height() == old(self).spec_height(),
            idx < old(self)@.len() ==> final(self)@ == old(self)@.update(
                idx as int,
                bumped(old(self)@[idx as int]),
            ) && lit == (old(self)@[idx as int] == 0),
            idx >= old(self)@.len() ==> final(self)@ == old(self)@ && !lit,
    {
        if self.width == 0 || idx >= self.width * self.height {
            return false;
        }
        proof {
            lemma_split_index(idx as int, self.width as int, self.height as int);
        }
        let row = idx / self.width;
        let col = (idx % self.width) as u32;
        let ghost before = *self;
        let current: u16 = match self.rows[row].get(&col) {
            Some(v) => *v,
            None => 0,
        };
        let next = saturating_bump(current);
        self.rows[row].insert(col, next);
        proof {
            self.lemma_after_store(before, idx as int, next);
            lemma_peak_after_write(before@, before.peak, idx as int, next);
        }
        if next > self.peak {
            self.peak = next;
        }
        current == 0
    }

    /// After the row of `idx` had the column of `idx` set to `value` (removed
    /// when `value` is 0), the grid is `before` with that one cell changed.
    proof fn lemma_after_store(&self, before: SparseGrid, idx: int, value: u16)
        requires
            before.layout_ok(),
            0 <= idx < before.width * before.height,
            self.width == before.width,
            self.height == before.height,
            self.rows@.len() == before.rows@.len(),
            forall|r: int| 0 <= r < before.height && r != idx / before.width as int ==> #[trigger] self.rows@[r] == before.rows@[r],
            value == 0 ==> self.rows@[idx / before.width as int]@ == before.rows@[idx / before.width as int]@.remove((idx % before.width as int) as u32),
            value != 0 ==> self.rows@[idx / before.width as int]@ == before.rows@[idx / before.width as int]@.insert((idx % before.width as int) as u32, value),
        ensures
            self.layout_ok(),
            self@ == before@.update(idx, value),
    {
        let w = before.width as int;
        let h = before.height as int;
        lemma_split_index(idx, w, h);
        let row = idx / w;
        let col = idx % w;
        assert forall|r: int, k: u32|
            0 <= r < self.height && #[trigger] self.rows@[r]@.contains_key(k) implies (k as int)
                < self.width && self.rows@[r]@[k] > 0 by {
            if r != row {
                assert(self.rows@[r] == before.rows@[r]);
            } else if k != col as u32 {
                assert(before.rows@[r]@.contains_key(k));
            }
        }
        assert forall|i: int| 0 <= i < w * h implies #[trigger] self@[i] == before@.update(idx, value)[i] by {
            lemma_split_index(i, w, h);
            if i / w != row {
                assert(self.rows@[i / w] == before.rows@[i / w]);
            } else if i % w != col {
                assert((i % w) as u32 != col as u32);
                assert(i != idx);
            } else {
                lemma_index_unique(i, idx, w);
            }
        }
        assert(self@ =~= before@.update(idx, value));
    }

    /// The counts widened to `u32`, in flat order.
    pub fn export(&self) -> (r: Vec<u32>)
        requires
            self.wf(),
        ensures
            r@.len() == self@.len(),
            forall|i: int| 0 <= i < r@.len() ==> r@[i] == self@[i] as u32,
    {
        let total = self.width * self.height;
        let mut r: Vec<u32> = Vec::with_capacity(total);
        assert(0 * self.width == 0) by (nonlinear_arith);
        for row in 0..self.height
            invariant
                self.wf(),
                total == self.width * self.height,
                r@.len() == row * self.width,
                r@.len() <= self@.len(),
                forall|j: int| 0 <= j < r@.len() ==> r@[j] == self@[j] as u32,
        {
            for col in 0..self.width
                invariant
                    self.wf(),
                    total == self.width * self.height,
                    row < self.height,
                    r@.len() == row * self.width + col,
                    r@.len() <= self@.len(),
                    forall|j: int| 0 <= j < r@.len() ==> r@[j] == self@[j] as u32,
            {
                proof {
                    lemma_join_index(row as int, col as int, self.width as int, self.height as int);
                }
                let c = col as u32;
                let v: u16 = match self.rows[row].get(&c) {
                    Some(v) => *v,
                    None => 0,
                };
                r.push(v as u32);
            }
            assert((row + 1) * self.width == row * self.width + self.width) by (nonlinear_arith);
            assert((row + 1) * self.width <= self.width * self.height) by (nonlinear_arith)
                requires
                    row < self.height,
            ;
        }
        assert(r@.len() == self.height * self.width);
        assert(self.height * self.width == self.width * self.height) by (nonlinear_arith);
        r
    }
}

} // verus!
