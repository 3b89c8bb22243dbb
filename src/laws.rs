//! Laws of density accumulation, stated over the model that the
//! accumulator's contracts use.
use vstd::prelude::*;
use crate::accumulator::{cell_of, visit, visit_all, ChaoticAccumulator};
use crate::cells::{lemma_join_index, lit_count, CELL_MAX};

verus! {

/// Binning a batch in two parts, one after the other, leaves the same counts
/// as binning the whole batch at once.
pub proof fn lemma_batches_compose(
    s: Seq<u16>,
    w: nat,
    h: nat,
    first: Seq<Option<(usize, usize)>>,
    second: Seq<Option<(usize, usize)>>,
)
    ensures
        visit_all(s, w, h, first + second) == visit_all(visit_all(s, w, h, first), w, h, second),
    decreases second.len(),
{
    if second.len() == 0 {
        assert(first + second =~= first);
    } else {
        lemma_batches_compose(s, w, h, first, second.drop_last());
        assert((first + second).drop_last() =~= first + second.drop_last());
        assert((first + second).last() == second.last());
    }
}

/// A point that falls in no cell, outside the bounds or past the grid,
/// changes no count and lights nothing.
pub proof fn lemma_dropped_point(s: Seq<u16>, w: nat, h: nat, p: Option<(usize, usize)>)
    requires
        cell_of(w, h, p) is None,
    ensures
        visit(s, w, h, p) == s,
        lit_count(visit(s, w, h, p)) == lit_count(s),
{
}

/// `k` copies of one point.
pub open spec fn repeated(p: Option<(usize, usize)>, k: nat) -> Seq<Option<(usize, usize)>> {
    Seq::new(k, |i: int| p)
}

/// The smaller of `a` and `b`.
pub open spec fn min_int(a: int, b: int) -> int {
    if a < b {
        a
    } else {
        b
    }
}

/// Visiting one cell `k` times raises its count by `k` but never past
/// `CELL_MAX`, and leaves every other cell as it was.
pub proof fn lemma_saturation(s: Seq<u16>, w: nat, h: nat, px: usize, py: usize, k: nat)
    requires
        s.len() == w * h,
        px < w,
        py < h,
    ensures
        ({
            let t = visit_all(s, w, h, repeated(Some((px, py)), k));
            let idx = py * w + px;
            &&& t.len() == s.len()
            &&& t[idx] == min_int(s[idx] + k, CELL_MAX as int)
            &&& forall|i: int| 0 <= i < s.len() && i != idx ==> t[i] == s[i]
        }),
    decreases k,
{
    lemma_join_index(py as int, px as int, w as int, h as int);
    if k > 0 {
        lemma_saturation(s, w, h, px, py, (k - 1) as nat);
        assert(repeated(Some((px, py)), k).drop_last() =~= repeated(Some((px, py)), (k - 1) as nat));
    } else {
        assert(repeated(Some((px, py)), k) =~= Seq::<Option<(usize, usize)>>::empty());
    }
}

/// Two accumulators of the same shape that hold the same counts, whatever
/// their backings, hold the same counts again after the same batch; since
/// `density` exports the counts alone, their exports agree too.
pub proof fn lemma_backings_agree(
    a: ChaoticAccumulator,
    b: ChaoticAccumulator,
    points: Seq<Option<(usize, usize)>>,
)
    requires
        a.wf(),
        b.wf(),
        a.spec_width() == b.spec_width(),
        a.spec_height() == b.spec_height(),
        a@ == b@,
    ensures
        visit_all(a@, a.spec_width(), a.spec_height(), points) == visit_all(
            b@,
            b.spec_width(),
            b.spec_height(),
            points,
        ),
{
}

} // verus!
