//! The mathematical model shared by every density backing: a grid of
//! `width * height` counters stored row after row, each saturating at
//! `CELL_MAX`.
use vstd::prelude::*;
use vstd::arithmetic::div_mod::{lemma_div_pos_is_pos, lemma_fundamental_div_mod, lemma_mod_pos_bound};

verus! {

/// Largest value a density counter can hold.
pub const CELL_MAX: u16 = 65535;

/// A counter after one more visit: one higher, or `CELL_MAX` once it is there.
pub open spec fn bumped(c: u16) -> u16 {
    if c == CELL_MAX {
        CELL_MAX
    } else {
        (c + 1) as u16
    }
}

/// A grid of `n` counters that have seen nothing.
pub open spec fn blank(n: nat) -> Seq<u16> {
    Seq::new(n, |i: int| 0u16)
}

/// `m` is the largest count of `s`, or 0 when `s` holds no count at all.
pub open spec fn is_peak(s: Seq<u16>, m: u16) -> bool {
    &&& forall|i: int| 0 <= i < s.len() ==> s[i] <= m
    &&& m == 0 || exists|i: int| 0 <= i < s.len() && s[i] == m
}

/// Writing `v` over cell `idx` keeps the peak known, as long as the write
/// does not lower the one cell that may hold the peak.
pub proof fn lemma_peak_after_write(s: Seq<u16>, m: u16, idx: int, v: u16)
    requires
        is_peak(s, m),
        0 <= idx < s.len(),
        v >= s[idx] || s[idx] < m,
    ensures
        is_peak(s.update(idx, v), if v > m { v } else { m }),
{
    let t = s.update(idx, v);
    if v <= m && m != 0 {
        let j = choose|j: int| 0 <= j < s.len() && s[j] == m;
        if j == idx {
            assert(t[idx] == m);
        } else {
            assert(t[j] == m);
        }
    }
    if v > m {
        assert(t[idx] == v);
    }
}

/// How many cells of `s` have been visited at least once.
pub open spec fn lit_count(s: Seq<u16>) -> nat
    decreases s.len(),
{
    if s.len() == 0 {
        0
    } else {
        lit_count(s.drop_last()) + if s.last() != 0 {
            1nat
        } else {
            0nat
        }
    }
}

/// Changing one cell changes the lit count only by whether that cell is lit.
pub proof fn lemma_lit_count_update(s: Seq<u16>, i: int, v: u16)
    requires
        0 <= i < s.len(),
    ensures
        lit_count(s.update(i, v)) + (if s[i] != 0 { 1int } else { 0int }) == lit_count(s) + (if v
            != 0 { 1int } else { 0int }),
    decreases s.len(),
{
    let t = s.update(i, v);
    if i == s.len() - 1 {
        assert(t.drop_last() =~= s.drop_last());
    } else {
        lemma_lit_count_update(s.drop_last(), i, v);
        assert(t.drop_last() =~= s.drop_last().update(i, v));
    }
}

/// No more cells are lit than there are cells.
pub proof fn lemma_lit_count_bound(s: Seq<u16>)
    ensures
        lit_count(s) <= s.len(),
    decreases s.len(),
{
    if s.len() > 0 {
        lemma_lit_count_bound(s.drop_last());
    }
}

/// A grid with a dark cell has fewer lit cells than cells.
pub proof fn lemma_lit_count_gap(s: Seq<u16>, i: int)
    requires
        0 <= i < s.len(),
        s[i] == 0,
    ensures
        lit_count(s) < s.len(),
{
    lemma_lit_count_update(s, i, 1);
    lemma_lit_count_bound(s.update(i, 1));
}

/// A blank grid has no lit cell.
pub proof fn lemma_lit_count_blank(n: nat)
    ensures
        lit_count(blank(n)) == 0,
    decreases n,
{
    if n > 0 {
        assert(blank(n).drop_last() =~= blank((n - 1) as nat));
        lemma_lit_count_blank((n - 1) as nat);
    }
}

/// Adds one to a counter, holding it at `CELL_MAX` once it gets there.
pub fn saturating_bump(c: u16) -> (r: u16)
    ensures
        r == bumped(c),
{
    if c == CELL_MAX {
        c
    } else {
        c + 1
    }
}

/// A flat index below `w * h` splits into a row below `h` and a column below `w`.
pub proof fn lemma_split_index(i: int, w: int, h: int)
    requires
        0 <= i < w * h,
        0 <= w,
        0 <= h,
    ensures
        w > 0,
        0 <= i / w < h,
        0 <= i % w < w,
        i == (i / w) * w + i % w,
{
    if w == 0 {
        assert(w * h == 0);
    }
    lemma_fundamental_div_mod(i, w);
    lemma_mod_pos_bound(i, w);
    lemma_div_pos_is_pos(i, w);
    let q = i / w;
    assert(i == q * w + i % w) by (nonlinear_arith)
        requires
            i == w * q + i % w,
    ;
    if q >= h {
        assert(q * w >= h * w) by (nonlinear_arith)
            requires
                q >= h,
                w > 0,
        ;
        assert(h * w == w * h) by (nonlinear_arith);
    }
}

/// Two flat indices with the same row and the same column are the same index.
pub proof fn lemma_index_unique(i: int, j: int, w: int)
    requires
        w > 0,
        i / w == j / w,
        i % w == j % w,
    ensures
        i == j,
{
    lemma_fundamental_div_mod(i, w);
    lemma_fundamental_div_mod(j, w);
}

/// The cell in row `r` and column `c` has flat index `r * w + c`, below `w * h`.
pub proof fn lemma_join_index(r: int, c: int, w: int, h: int)
    requires
        0 <= r < h,
        0 <= c < w,
    ensures
        0 <= r * w + c < w * h,
        (r * w + c) / w == r,
        (r * w + c) % w == c,
{
    assert(0 <= r * w + c < w * h) by (nonlinear_arith)
        requires
            0 <= r < h,
            0 <= c < w,
    ;
    vstd::arithmetic::div_mod::lemma_fundamental_div_mod_converse(r * w + c, w, r, c);
}

} // verus!
