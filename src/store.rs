//! A density grid whose backing, dense or sparse, is chosen once from the
//! number of cells it has to address.
use vstd::prelude::*;
use crate::cells::{blank, bumped, is_peak};
use crate::dense::DenseGrid;
use crate::sparse::SparseGrid;

verus! {

/// Above this many cells a grid keeps only its visited cells.
pub const SPARSE_CEILING: usize = 50_000_000;

/// Saturating counters over `width * height` cells, in one of two backings
/// that behave alike.
pub enum DensityStore {
    Dense(DenseGrid),
    Sparse(SparseGrid),
}

impl View for DensityStore {
    type V = Seq<u16>;

    open spec fn view(&self) -> Seq<u16> {
        match self {
            DensityStore::Dense(g) => g@,
            DensityStore::Sparse(g) => g@,
        }
    }
}

impl DensityStore {
    pub open spec fn spec_width(&self) -> nat {
        match self {
            DensityStore::Dense(g) => g.spec_width(),
            DensityStore::Sparse(g) => g.spec_width(),
        }
    }

    pub open spec fn spec_height(&self) -> nat {
        match self {
            DensityStore::Dense(g) => g.spec_height(),
            DensityStore::Sparse(g) => g.spec_height(),
        }
    }

    pub open spec fn wf(&self) -> bool {
        match self {
            DensityStore::Dense(g) => g.wf(),
            DensityStore::Sparse(g) => g.wf(),
        }
    }

    pub open spec fn spec_is_sparse(&self) -> bool {
        self is Sparse
    }

    /// A zeroed grid, sparse exactly when it has more than `SPARSE_CEILING` cells.
    pub fn new(width: usize, height: usize) -> (s: Self)
        requires
            width * height <= usize::MAX,
            width <= u32::MAX + 1,
        ensures
            s.wf(),
            s.spec_width() == width,
            s.spec_height() == height,
            s@ == blank((width * height) as nat),
            s.spec_is_sparse() == (width * height > SPARSE_CEILING),
    {
        DensityStore::with_backing(width, height, width * height > SPARSE_CEILING)
    }

    /// A zeroed grid in the backing asked for.
    pub fn with_backing(width: usize, height: usize, sparse: bool) -> (s: Self)
        requires
            width * height <= usize::MAX,
            width <= u32::MAX + 1,
        ensures
            s.wf(),
            s.spec_width() == width,
            s.spec_height() == height,
            s@ == blank((width * height) as nat),
            s.spec_is_sparse() == sparse,
    {
        if sparse {
            DensityStore::Sparse(SparseGrid::new(width, height))
        } else {
            DensityStore::Dense(DenseGrid::new(width, height))
        }
    }

    pub fn is_sparse(&self) -> (r: bool)
        ensures
            r == self.spec_is_sparse(),
    {
        match self {
            DensityStore::Dense(_) => false,
            DensityStore::Sparse(_) => true,
        }
    }

    pub fn width(&self) -> (r: usize)
        ensures
            r == self.spec_width(),
    {
        match self {
            DensityStore::Dense(g) => g.width(),
            DensityStore::Sparse(g) => g.width(),
        }
    }

    pub fn height(&self) -> (r: usize)
        ensures
            r == self.spec_height(),
    {
        match self {
            DensityStore::Dense(g) => g.height(),
            DensityStore::Sparse(g) => g.height(),
        }
    }

    /// The count at flat index `idx`, or 0 past the end of the grid.
    pub fn get(&self, idx: usize) -> (r: u16)
        requires
            self.wf(),
        ensures
            r == if idx < self@.len() { self@[idx as int] } else { 0 },
    {
        match self {
            DensityStore::Dense(g) => g.get(idx),
            DensityStore::Sparse(g) => g.get(idx),
        }
    }

    /// Overwrites the count at `idx`; an index past the end changes nothing.
    pub fn set(&mut self, idx: usize, value: u16)
        requires
            old(self).wf(),
        ensures
            final(self).wf(),
            final(self).spec_width() == old(self).spec_width(),
            final(self).spec_height() == old(self).spec_height(),
            final(self).spec_is_sparse() == old(self).spec_is_sparse(),
            final(self)@ == if idx < old(self)@.len() {
                old(self)@.update(idx as int, value)
            } else {
                old(self)@
            },
    {
        match self {
            DensityStore::Dense(g) => g.set(idx, value),
            DensityStore::Sparse(g) => g.set(idx, value),
        }
    }

    /// Adds one visit at `idx`, saturating at `CELL_MAX`; tells whether the
    /// cell was empty before. An index past the end changes nothing.
    pub fn increment(&mut self, idx: usize) -> (lit: bool)
        requires
            old(self).wf(),
        ensures
            final(self).wf(),
            final(self).spec_width() == old(self).spec_width(),
            final(self).spec_height() == old(self).spec_height(),
            final(self).spec_is_sparse() == old(self).spec_is_sparse(),
            idx < old(self)@.len() ==> final(self)@ == old(self)@.update(
                idx as int,
                bumped(old(self)@[idx as int]),
            ) && lit == (old(self)@[idx as int] == 0),
            idx >= old(self)@.len() ==> final(self)@ == old(self)@ && !lit,
    {
        match self {
            DensityStore::Dense(g) => g.increment(idx),
            DensityStore::Sparse(g) => g.increment(idx),
        }
    }

    /// The whole grid as a flat array of `u32` counts, whatever the backing.
    pub fn export_dense(&self) -> (r: Vec<u32>)
        requires
            self.wf(),
        ensures
            r@.len() == self@.len(),
            forall|i: int| 0 <= i < r@.len() ==> r@[i] == self@[i] as u32,
    {
        match self {
            DensityStore::Dense(g) => g.export(),
            DensityStore::Sparse(g) => g.export(),
        }
    }

    /// The largest count in the grid (0 while nothing was counted).
    pub fn max_count(&self) -> (r: u16)
        requires
            self.wf(),
        ensures
            is_peak(self@, r),
    {
        match self {
            DensityStore::Dense(g) => g.max_count(),
            DensityStore::Sparse(g) => g.max_count(),
        }
    }
}

} // verus!
