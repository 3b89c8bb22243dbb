//! Plain density grids as flat `u32` arrays: tallying binned points,
//! merging, the largest count, and packing colours into RGBA bytes.
use vstd::prelude::*;
use vstd::arithmetic::div_mod::lemma_fundamental_div_mod_converse;
use crate::accumulator::Rgb;
use crate::cells::lemma_join_index;

verus! {

/// The flat index of pixel `p` in a `w` by `h` grid, when it lies inside.
pub open spec fn pixel_index(w: nat, h: nat, p: (usize, usize)) -> Option<int> {
    if p.0 < w && p.1 < h {
        Some(p.1 * w + p.0)
    } else {
        None
    }
}

/// How many of the pixels `ps` fall in cell `i`.
pub open spec fn hits(w: nat, h: nat, ps: Seq<(usize, usize)>, i: int) -> nat
    decreases ps.len(),
{
    if ps.len() == 0 {
        0
    } else {
        hits(w, h, ps.drop_last(), i) + if pixel_index(w, h, ps.last()) == Some(i) {
            1nat
        } else {
            0nat
        }
    }
}

/// `n` held at `u32::MAX`.
pub open spec fn capped(n: int) -> u32 {
    if n > u32::MAX {
        u32::MAX
    } else {
        n as u32
    }
}

/// Counts the pixels that fall in each cell of a `width` by `height` grid;
/// pixels past the grid are dropped. A count stops at `u32::MAX`.
pub fn tally(width: usize, height: usize, pixels: &Vec<(usize, usize)>) -> (r: Vec<u32>)
    requires
        width * height <= usize::MAX,
    ensures
        r@.len() == width * height,
        forall|i: int| 0 <= i < r@.len() ==> r@[i] == capped(hits(width as nat, height as nat, pixels@, i) as int),
{
    let n = width * height;
    let mut r: Vec<u32> = vec![0u32; n];
    for k in 0..pixels.len()
        invariant
            n == width * height,
            r@.len() == n,
            forall|i: int|
                0 <= i < n ==> #[trigger] r@[i] == capped(
                    hits(width as nat, height as nat, pixels@.take(k as int), i) as int,
                ),
    {
        let (px, py) = pixels[k];
        let ghost ps = pixels@.take(k + 1);
        proof {
            assert(ps.drop_last() =~= pixels@.take(k as int));
            assert(ps.last() == pixels@[k as int]);
        }
        if px < width && py < height {
            proof {
                lemma_join_index(py as int, px as int, width as int, height as int);
            }
            let idx = py * width + px;
            let c = r[idx];
            r.set(idx, c.saturating_add(1));
        }
    }
    proof {
        assert(pixels@.take(pixels@.len() as int) =~= pixels@);
    }
    r
}

/// Adds two grids cell by cell, each sum held at `u32::MAX`. Grids of
/// different sizes are not merged: the first comes back unchanged.
pub fn merge_density_grids(grid1: &Vec<u32>, grid2: &Vec<u32>) -> (r: Vec<u32>)
    ensures
        grid1@.len() != grid2@.len() ==> r@ == grid1@,
        grid1@.len() == grid2@.len() ==> r@.len() == grid1@.len() && forall|i: int|
            0 <= i < r@.len() ==> r@[i] == capped(grid1@[i] + grid2@[i]),
{
    let mut r: Vec<u32> = Vec::with_capacity(grid1.len());
    if grid1.len() != grid2.len() {
        for i in 0..grid1.len()
            invariant
                r@ == grid1@.take(i as int),
        {
            r.push(grid1[i]);
            assert(r@ =~= grid1@.take(i + 1));
        }
        assert(grid1@.take(grid1@.len() as int) =~= grid1@);
        return r;
    }
    for i in 0..grid1.len()
        invariant
            grid1@.len() == grid2@.len(),
            r@.len() == i,
            forall|j: int| 0 <= j < i ==> r@[j] == capped(grid1@[j] + grid2@[j]),
    {
        r.push(grid1[i].saturating_add(grid2[i]));
    }
    r
}

/// The largest count of a grid, 0 for an empty one.
pub fn max_density(grid: &Vec<u32>) -> (r: u32)
    ensures
        forall|i: int| 0 <= i < grid@.len() ==> grid@[i] <= r,
        r == 0 || exists|i: int| 0 <= i < grid@.len() && grid@[i] == r,
{
    let mut best: u32 = 0;
    let ghost mut at: int = 0;
    for i in 0..grid.len()
        invariant
            forall|j: int| 0 <= j < i ==> grid@[j] <= best,
            best == 0 || (0 <= at < i && grid@[at] == best),
    {
        if grid[i] > best {
            best = grid[i];
            proof {
                at = i as int;
            }
        }
    }
    best
}

/// Packs one colour per cell into RGBA bytes, every pixel opaque.
pub fn rgba_from_colors(colors: &Vec<Rgb>) -> (r: Vec<u8>)
    requires
        colors@.len() * 4 <= usize::MAX,
    ensures
        r@.len() == colors@.len() * 4,
        forall|b: int|
            0 <= b < r@.len() ==> #[trigger] r@[b] == ({
                let c = colors@[b / 4];
                if b % 4 == 0 {
                    c.0
                } else if b % 4 == 1 {
                    c.1
                } else if b % 4 == 2 {
                    c.2
                } else {
                    255u8
                }
            }),
{
    let mut r: Vec<u8> = Vec::with_capacity(colors.len() * 4);
    for k in 0..colors.len()
        invariant
            colors@.len() * 4 <= usize::MAX,
            r@.len() == 4 * k,
            forall|b: int|
                0 <= b < r@.len() ==> #[trigger] r@[b] == ({
                    let c = colors@[b / 4];
                    if b % 4 == 0 {
                        c.0
                    } else if b % 4 == 1 {
                        c.1
                    } else if b % 4 == 2 {
                        c.2
                    } else {
                        255u8
                    }
                }),
    {
        let c = colors[k];
        let ghost before = r@;
        r.push(c.0);
        r.push(c.1);
        r.push(c.2);
        r.push(255);
        proof {
            assert forall|b: int| 0 <= b < r@.len() implies #[trigger] r@[b] == ({
                let c = colors@[b / 4];
                if b % 4 == 0 {
                    c.0
                } else if b % 4 == 1 {
                    c.1
                } else if b % 4 == 2 {
                    c.2
                } else {
                    255u8
                }
            }) by {
                if b >= 4 * k {
                    lemma_fundamental_div_mod_converse(b, 4, k as int, b - 4 * k);
                } else {
                    assert(r@[b] == before[b]);
                }
            }
        }
    }
    r
}

} // verus!
