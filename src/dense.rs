//! The dense backing: one counter per cell in a flat vector.
use vstd::prelude::*;
use crate::cells::{blank, bumped, is_peak, saturating_bump};

verus! {

/// A flat array of `width * height` saturating counters.
pub struct DenseGrid {
    width: usize,
    height: usize,
    cells: Vec<u16>,
}

impl View for DenseGrid {
    type V = Seq<u16>;

    closed spec fn view(&self) -> Seq<u16> {
        self.cells@
    }
}

impl DenseGrid {
    pub closed spec fn spec_width(&self) -> nat {
        self.width as nat
    }

    pub closed spec fn spec_height(&self) -> nat {
        self.height as nat
    }

    /// The grid holds exactly one counter per cell.
    pub closed spec fn wf(&self) -> bool {
        &&& self.cells@.len() == self.width * self.height
        &&& self.width * self.height <= usize::MAX
    }

    /// A grid of `width * height` zero counters.
    pub fn new(width: usize, height: usize) -> (g: Self)
        requires
            width * height <= usize::MAX,
        ensures
            g.wf(),
            g.spec_width() == width,
            g.spec_height() == height,
            g@ == blank((width * height) as nat),
    {
        let n = width * height;
        let cells = vec![0u16; n];
        let g = DenseGrid { width, height, cells };
        assert(g@ =~= blank(n as nat));
        g
    }

    pub fn width(&self) -> (r: usize)
        ensures
            r == self.spec_width(),
    {
        self.width
    }

    pub fn height(&self) -> (r: usize)
        ensures
            r == self.spec_height(),
    {
        self.height
    }

    /// The count at flat index `idx`, or 0 past the end of the grid.
    pub fn get(&self, idx: usize) -> (r: u16)
        requires
            self.wf(),
        ensures
            r == if idx < self@.len() { self@[idx as int] } else { 0 },
    {
        if idx < self.cells.len() {
            self.cells[idx]
        } else {
            0
        }
    }

    /// Overwrites the count at `idx`; an index past the end changes nothing.
    pub fn set(&mut self, idx: usize, value: u16)
        requires
            old(self).wf(),
        ensures
            final(self).wf(),
            final(self).spec_width() == old(self).spec_width(),
            final(self).spec_height() == old(self).spec_height(),
            final(self)@ == if idx < old(self)@.len() {
                old(self)@.update(idx as int, value)
            } else {
                old(self)@
            },
    {
        if idx < self.cells.len() {
            self.cells.set(idx, value);
        }
    }

    /// Adds one visit at `idx`, saturating; tells whether the cell was empty
    /// before. An index past the end changes nothing and returns false.
    pub fn increment(&mut self, idx: usize) -> (lit: bool)
        requires
            old(self).wf(),
        ensures
            final(self).wf(),
            final(self).spec_width() == old(self).spec_width(),
            final(self).spec_height() == old(self).spec_height(),
            idx < old(self)@.len() ==> final(self)@ == old(self)@.update(
                idx as int,
                bumped(old(self)@[idx as int]),
            ) && lit == (old(self)@[idx as int] == 0),
            idx >= old(self)@.len() ==> final(self)@ == old(self)@ && !lit,
    {
        if idx < self.cells.len() {
            let current = self.cells[idx];
            self.cells.set(idx, saturating_bump(current));
            current == 0
        } else {
            false
        }
    }

    /// The counts widened to `u32`, in flat order.
    pub fn export(&self) -> (r: Vec<u32>)
        requires
            self.wf(),
        ensures
            r@.len() == self@.len(),
            forall|i: int| 0 <= i < r@.len() ==> r@[i] == self@[i] as u32,
    {
        let mut r: Vec<u32> = Vec::with_capacity(self.cells.len());
        for i in 0..self.cells.len()
            invariant
                r@.len() == i,
                forall|j: int| 0 <= j < i ==> r@[j] == self@[j] as u32,
        {
            r.push(self.cells[i] as u32);
        }
        r
    }

    /// The largest count in the grid (0 for an empty grid).
    pub fn max_count(&self) -> (r: u16)
        requires
            self.wf(),
        ensures
            is_peak(self@, r),
    {
        let mut best: u16 = 0;
        let ghost mut at: int = 0;
        for i in 0..self.cells.len()
            invariant
                forall|j: int| 0 <= j < i ==> self@[j] <= best,
                best == 0 || (0 <= at < i && self@[at] == best),
        {
            if self.cells[i] > best {
                best = self.cells[i];
                proof {
                    at = i as int;
                }
            }
        }
        best
    }
}

} // verus!
