//! The accumulator: bins orbit points into a density grid, keeps the count
//! of lit cells, and streams shaded RGBA rows from a cached shade table.
use vstd::prelude::*;
use vstd::arithmetic::div_mod::lemma_fundamental_div_mod_converse;
use crate::cells::{
    blank, bumped, is_peak, lemma_join_index, lemma_lit_count_blank, lemma_lit_count_gap,
    lemma_lit_count_update, lit_count,
};
use crate::store::DensityStore;

verus! {

/// A colour as red, green and blue bytes.
pub type Rgb = (u8, u8, u8);

/// The flat index of the cell that pixel `p` falls in; `None` for a point
/// that fell outside the bounds, or for pixel coordinates past the grid.
pub open spec fn cell_of(w: nat, h: nat, p: Option<(usize, usize)>) -> Option<int> {
    match p {
        Some(q) => if q.0 < w && q.1 < h {
            Some(q.1 * w + q.0)
        } else {
            None
        },
        None => None,
    }
}

/// The counts after one more point.
pub open spec fn visit(s: Seq<u16>, w: nat, h: nat, p: Option<(usize, usize)>) -> Seq<u16> {
    match cell_of(w, h, p) {
        Some(i) => s.update(i, bumped(s[i])),
        None => s,
    }
}

/// The counts after the points `ps`, in order.
pub open spec fn visit_all(s: Seq<u16>, w: nat, h: nat, ps: Seq<Option<(usize, usize)>>) -> Seq<
    u16,
>
    decreases ps.len(),
{
    if ps.len() == 0 {
        s
    } else {
        visit(visit_all(s, w, h, ps.drop_last()), w, h, ps.last())
    }
}

/// The number of rows that a request for `rows` rows from `start` yields on
/// a grid `h` rows high.
pub open spec fn rows_shown(h: nat, start: nat, rows: nat) -> nat {
    if start >= h {
        0
    } else if rows > h - start {
        (h - start) as nat
    } else {
        rows
    }
}

/// The shade of a count: its entry in the table, or the last entry for a
/// count past the table (the mapping clamps at its top).
pub open spec fn shade_of(shades: Seq<Rgb>, c: u16) -> Rgb {
    if c < shades.len() {
        shades[c as int]
    } else {
        shades.last()
    }
}

/// Byte `j` (red, green, blue, alpha) of the pixel of a cell counting `c`;
/// every byte is 0 while there is no shade table or the grid was empty when
/// the table was made.
pub open spec fn pixel_byte(shades: Seq<Rgb>, peak: u16, c: u16, j: int) -> u8 {
    if shades.len() == 0 || peak == 0 {
        0
    } else if j == 0 {
        shade_of(shades, c).0
    } else if j == 1 {
        shade_of(shades, c).1
    } else if j == 2 {
        shade_of(shades, c).2
    } else {
        255
    }
}

/// What one batch did: the cells it lit for the first time, and the lit
/// cells in the grid after it.
#[derive(Clone, Copy, Debug, PartialEq, Eq)]
pub struct BatchStats {
    pub newly_lit: usize,
    pub total_non_zero: usize,
}

/// A density grid fed by an orbit, with the count of its lit cells and the
/// shade table of the last mapping.
pub struct ChaoticAccumulator {
    store: DensityStore,
    non_zero: usize,
    shades: Vec<Rgb>,
    shade_peak: u16,
}

impl View for ChaoticAccumulator {
    type V = Seq<u16>;

    /// The counts of the cells, row after row.
    closed spec fn view(&self) -> Seq<u16> {
        self.store@
    }
}

impl ChaoticAccumulator {
    pub closed spec fn spec_width(&self) -> nat {
        self.store.spec_width()
    }

    pub closed spec fn spec_height(&self) -> nat {
        self.store.spec_height()
    }

    pub closed spec fn spec_is_sparse(&self) -> bool {
        self.store.spec_is_sparse()
    }

    pub closed spec fn spec_non_zero(&self) -> nat {
        self.non_zero as nat
    }

    /// The shade table of the last mapping (empty before the first).
    pub closed spec fn spec_shades(&self) -> Seq<Rgb> {
        self.shades@
    }

    /// The largest count when the last mapping was made.
    pub closed spec fn spec_shade_peak(&self) -> u16 {
        self.shade_peak
    }

    /// One counter per cell, an RGBA image of the grid fits in memory, and
    /// `non_zero` is the number of lit cells.
    pub closed spec fn wf(&self) -> bool {
        &&& self.store.wf()
        &&& self.store@.len() == self.store.spec_width() * self.store.spec_height()
        &&& self.store.spec_width() * self.store.spec_height() * 4 <= usize::MAX
        &&& self.non_zero == lit_count(self.store@)
    }

    /// A zeroed grid of `width` by `height` cells, kept sparse exactly when
    /// it has more than `SPARSE_CEILING` cells. No mapping is cached yet.
    /// The RGBA image of the grid must be addressable, and a column must fit
    /// the `u32` keys of the sparse rows.
    pub fn new(width: usize, height: usize) -> (a: Self)
        requires
            width * height * 4 <= usize::MAX,
            width <= u32::MAX + 1,
        ensures
            a.wf(),
            a.spec_width() == width,
            a.spec_height() == height,
            a@ == blank((width * height) as nat),
            a.spec_non_zero() == 0,
            a.spec_is_sparse() == (width * height > crate::store::SPARSE_CEILING),
            a.spec_shades().len() == 0,
    {
        ChaoticAccumulator::with_backing(width, height, width * height > crate::store::SPARSE_CEILING)
    }

    /// A zeroed grid in the backing asked for, whatever its size.
    pub fn with_backing(width: usize, height: usize, sparse: bool) -> (a: Self)
        requires
            width * height * 4 <= usize::MAX,
            width <= u32::MAX + 1,
        ensures
            a.wf(),
            a.spec_width() == width,
            a.spec_height() == height,
            a@ == blank((width * height) as nat),
            a.spec_non_zero() == 0,
            a.spec_is_sparse() == sparse,
            a.spec_shades().len() == 0,
    {
        assert(width * height <= usize::MAX) by (nonlinear_arith)
            requires
                width * height * 4 <= usize::MAX,
        ;
        let store = DensityStore::with_backing(width, height, sparse);
        proof {
            lemma_lit_count_blank((width * height) as nat);
        }
        ChaoticAccumulator { store, non_zero: 0, shades: Vec::new(), shade_peak: 0 }
    }

    pub fn width(&self) -> (r: usize)
        ensures
            r == self.spec_width(),
    {
        self.store.width()
    }

    pub fn height(&self) -> (r: usize)
        ensures
            r == self.spec_height(),
    {
        self.store.height()
    }

    /// Whether the grid keeps only its visited cells.
    pub fn use_chunked(&self) -> (r: bool)
        ensures
            r == self.spec_is_sparse(),
    {
        self.store.is_sparse()
    }

    /// The number of lit cells.
    pub fn non_zero(&self) -> (r: usize)
        requires
            self.wf(),
        ensures
            r == lit_count(self@),
    {
        self.non_zero
    }

    /// Bins one point, given as the pixel it falls in or `None` when it fell
    /// outside the bounds. A pixel past the grid is dropped like a point out
    /// of bounds. Tells whether the point lit a cell for the first time.
    pub fn record(&mut self, p: Option<(usize, usize)>) -> (lit: bool)
        requires
            old(self).wf(),
        ensures
            final(self).wf(),
            final(self).spec_width() == old(self).spec_width(),
            final(self).spec_height() == old(self).spec_height(),
            final(self).spec_is_sparse() == old(self).spec_is_sparse(),
            final(self).spec_shades() == old(self).spec_shades(),
            final(self).spec_shade_peak() == old(self).spec_shade_peak(),
            final(self)@ == visit(old(self)@, old(self).spec_width(), old(self).spec_height(), p),
            lit == match cell_of(old(self).spec_width(), old(self).spec_height(), p) {
                Some(i) => old(self)@[i] == 0,
                None => false,
            },
            final(self).spec_non_zero() == old(self).spec_non_zero() + if lit {
                1nat
            } else {
                0nat
            },
    {
        let w = self.store.width();
        let h = self.store.height();
        match p {
            Some((px, py)) => {
                if px < w && py < h {
                    proof {
                        lemma_join_index(py as int, px as int, w as int, h as int);
                    }
                    let idx = py * w + px;
                    let ghost before = self.store@;
                    let lit = self.store.increment(idx);
                    proof {
                        lemma_lit_count_update(before, idx as int, bumped(before[idx as int]));
                        if lit {
                            lemma_lit_count_gap(before, idx as int);
                        }
                    }
                    if lit {
                        self.non_zero = self.non_zero + 1;
                    }
                    lit
                } else {
                    false
                }
            },
            None => false,
        }
    }

    /// Bins the points of one batch in order, and reports the cells it lit
    /// for the first time and the lit cells after it.
    pub fn record_batch(&mut self, points: &Vec<Option<(usize, usize)>>) -> (stats: BatchStats)
        requires
            old(self).wf(),
        ensures
            final(self).wf(),
            final(self).spec_width() == old(self).spec_width(),
            final(self).spec_height() == old(self).spec_height(),
            final(self).spec_is_sparse() == old(self).spec_is_sparse(),
            final(self).spec_shades() == old(self).spec_shades(),
            final(self).spec_shade_peak() == old(self).spec_shade_peak(),
            final(self)@ == visit_all(
                old(self)@,
                old(self).spec_width(),
                old(self).spec_height(),
                points@,
            ),
            stats.total_non_zero == lit_count(final(self)@),
            stats.newly_lit == lit_count(final(self)@) - lit_count(old(self)@),
    {
        let ghost start = self@;
        let ghost w = self.spec_width();
        let ghost h = self.spec_height();
        let mut newly: usize = 0;
        for i in 0..points.len()
            invariant
                self.wf(),
                self.spec_width() == w,
                self.spec_height() == h,
                self.spec_is_sparse() == old(self).spec_is_sparse(),
                self.spec_shades() == old(self).spec_shades(),
                self.spec_shade_peak() == old(self).spec_shade_peak(),
                start == old(self)@,
                w == old(self).spec_width(),
                h == old(self).spec_height(),
                self@ == visit_all(start, w, h, points@.take(i as int)),
                self.non_zero == lit_count(start) + newly,
        {
            let lit = self.record(points[i]);
            if lit {
                newly = newly + 1;
            }
            proof {
                let ps = points@.take(i + 1);
                assert(ps.drop_last() =~= points@.take(i as int));
                assert(ps.last() == points@[i as int]);
            }
        }
        proof {
            assert(points@.take(points@.len() as int) =~= points@);
        }
        BatchStats { newly_lit: newly, total_non_zero: self.non_zero }
    }

    /// The counts as a flat `u32` array, row after row, whatever the backing.
    pub fn density(&self) -> (r: Vec<u32>)
        requires
            self.wf(),
        ensures
            r@.len() == self@.len(),
            forall|i: int| 0 <= i < r@.len() ==> r@[i] == self@[i] as u32,
    {
        self.store.export_dense()
    }

    /// The largest count in the grid.
    pub fn max_density(&self) -> (r: u16)
        requires
            self.wf(),
        ensures
            is_peak(self@, r),
    {
        self.store.max_count()
    }

    /// Caches a mapping for row streaming: `shades[c]` is the colour of a
    /// cell counting `c`, for the counts up to the current largest one. The
    /// largest count is remembered with it; an empty table, or a grid with
    /// nothing counted yet, makes every streamed byte 0.
    pub fn fill_mapping(&mut self, shades: Vec<Rgb>)
        requires
            old(self).wf(),
        ensures
            final(self).wf(),
            final(self)@ == old(self)@,
            final(self).spec_width() == old(self).spec_width(),
            final(self).spec_height() == old(self).spec_height(),
            final(self).spec_is_sparse() == old(self).spec_is_sparse(),
            final(self).spec_shades() == shades@,
            is_peak(old(self)@, final(self).spec_shade_peak()),
    {
        self.shade_peak = self.store.max_count();
        self.shades = shades;
    }

    /// RGBA bytes for `rows` rows from `start_row`, cut at the bottom of the
    /// grid, shaded with the cached mapping: four bytes per cell, opaque.
    /// Without a usable mapping every byte is 0; a request that starts past
    /// the grid, or for no rows, yields nothing.
    pub fn get_rgba_rows(&self, start_row: usize, rows: usize) -> (r: Vec<u8>)
        requires
            self.wf(),
        ensures
            r@.len() == rows_shown(self.spec_height(), start_row as nat, rows as nat)
                * self.spec_width() * 4,
            forall|b: int|
                0 <= b < r@.len() ==> #[trigger] r@[b] == pixel_byte(
                    self.spec_shades(),
                    self.spec_shade_peak(),
                    self@[start_row * self.spec_width() + b / 4],
                    b % 4,
                ),
    {
        let w = self.store.width();
        let h = self.store.height();
        if w == 0 || h == 0 || start_row >= h || rows == 0 {
            proof {
                assert(rows_shown(h as nat, start_row as nat, rows as nat) * w * 4 == 0) by (nonlinear_arith)
                    requires
                        w == 0 || rows_shown(h as nat, start_row as nat, rows as nat) == 0,
                ;
            }
            return Vec::new();
        }
        let count: usize = if rows > h - start_row {
            h - start_row
        } else {
            rows
        };
        assert(count * w <= w * h) by (nonlinear_arith)
            requires
                count <= h,
        ;
        assert((start_row + count) * w <= w * h) by (nonlinear_arith)
            requires
                start_row + count <= h,
        ;
        assert((start_row + count) * w == start_row * w + count * w) by (nonlinear_arith);
        let cells: usize = count * w;
        let base: usize = start_row * w;
        let ready = self.shades.len() > 0 && self.shade_peak > 0;
        let last = if self.shades.len() > 0 {
            self.shades.len() - 1
        } else {
            0
        };
        let mut out: Vec<u8> = Vec::with_capacity(cells * 4);
        for k in 0..cells
            invariant
                self.wf(),
                w == self.spec_width(),
                h == self.spec_height(),
                cells == count * w,
                base == start_row * w,
                base + cells <= w * h,
                cells * 4 <= usize::MAX,
                ready == (self.spec_shades().len() > 0 && self.spec_shade_peak() > 0),
                self.spec_shades().len() > 0 ==> last == self.spec_shades().len() - 1,
                out@.len() == 4 * k,
                forall|b: int|
                    0 <= b < out@.len() ==> #[trigger] out@[b] == pixel_byte(
                        self.spec_shades(),
                        self.spec_shade_peak(),
                        self@[base + b / 4],
                        b % 4,
                    ),
        {
            let c = self.store.get(base + k);
            let ghost before = out@;
            if ready {
                let s: Rgb = if (c as usize) < self.shades.len() {
                    self.shades[c as usize]
                } else {
                    self.shades[last]
                };
                out.push(s.0);
                out.push(s.1);
                out.push(s.2);
                out.push(255);
            } else {
                out.push(0);
                out.push(0);
                out.push(0);
                out.push(0);
            }
            proof {
                assert forall|b: int| 0 <= b < out@.len() implies #[trigger] out@[b] == pixel_byte(
                    self.spec_shades(),
                    self.spec_shade_peak(),
                    self@[base + b / 4],
                    b % 4,
                ) by {
                    if b >= 4 * k {
                        lemma_fundamental_div_mod_converse(b, 4, k as int, b - 4 * k);
                    } else {
                        assert(out@[b] == before[b]);
                    }
                }
            }
        }
        out
    }
}

} // verus!
