use fractal_core::accumulator::ChaoticAccumulator;
use fractal_core::cells::{saturating_bump, CELL_MAX};
use fractal_core::dense::DenseGrid;
use fractal_core::sparse::SparseGrid;
use fractal_core::store::{DensityStore, SPARSE_CEILING};

#[test]
fn bump_counts_up_and_saturates() {
    assert_eq!(saturating_bump(0), 1);
    assert_eq!(saturating_bump(65534), 65535);
    assert_eq!(saturating_bump(CELL_MAX), 65535);
}

#[test]
fn dense_grid_get_set_increment() {
    let mut g = DenseGrid::new(3, 2);
    assert_eq!(g.export(), vec![0u32; 6]);
    assert!(g.increment(4));
    assert!(!g.increment(4));
    assert_eq!(g.get(4), 2);
    g.set(1, 7);
    assert_eq!(g.get(1), 7);
    assert_eq!(g.max_count(), 7);
    assert_eq!(g.export(), vec![0, 7, 0, 0, 2, 0]);
    // indices past the end read as zero and change nothing
    assert_eq!(g.get(6), 0);
    assert!(!g.increment(6));
    g.set(99, 5);
    assert_eq!(g.export(), vec![0, 7, 0, 0, 2, 0]);
}

#[test]
fn sparse_grid_get_set_increment() {
    let mut g = SparseGrid::new(3, 2);
    assert_eq!(g.export(), vec![0u32; 6]);
    assert!(g.increment(4));
    assert!(!g.increment(4));
    assert_eq!(g.get(4), 2);
    g.set(1, 7);
    assert_eq!(g.max_count(), 7);
    assert_eq!(g.export(), vec![0, 7, 0, 0, 2, 0]);
    // a zero removes the cell, which then reads as unvisited
    g.set(1, 0);
    assert_eq!(g.get(1), 0);
    assert_eq!(g.max_count(), 2);
    assert!(g.increment(1));
    assert!(!g.increment(99));
    assert_eq!(g.export(), vec![0, 1, 0, 0, 2, 0]);
}

#[test]
fn sparse_peak_follows_a_lowered_cell() {
    let mut g = SparseGrid::new(4, 4);
    g.set(3, 9);
    g.set(10, 4);
    assert_eq!(g.max_count(), 9);
    g.set(3, 1);
    assert_eq!(g.max_count(), 4);
    g.set(10, 0);
    assert_eq!(g.max_count(), 1);
}

#[test]
fn store_picks_backing_by_cell_count() {
    let small = DensityStore::new(100, 100);
    assert!(!small.is_sparse());
    let huge = DensityStore::new(SPARSE_CEILING + 1, 1);
    assert!(huge.is_sparse());
    assert_eq!(huge.width(), SPARSE_CEILING + 1);
    assert_eq!(huge.max_count(), 0);
    let forced = DensityStore::with_backing(4, 4, true);
    assert!(forced.is_sparse());
    assert_eq!(forced.export_dense(), vec![0u32; 16]);
}

#[test]
fn store_saturates_at_cell_max() {
    for sparse in [false, true] {
        let mut s = DensityStore::with_backing(2, 2, sparse);
        for _ in 0..70_000u32 {
            s.increment(3);
        }
        assert_eq!(s.get(3), 65535);
        assert_eq!(s.export_dense(), vec![0, 0, 0, 65535]);
    }
}

#[test]
fn accumulator_saturates_one_cell() {
    let mut a = ChaoticAccumulator::new(3, 3);
    let batch = vec![Some((1usize, 2usize)); 65_600];
    let stats = a.record_batch(&batch);
    assert_eq!(stats.newly_lit, 1);
    assert_eq!(stats.total_non_zero, 1);
    assert_eq!(a.density()[7], 65535);
    assert!(!a.record(Some((1, 2))));
    assert_eq!(a.density()[7], 65535);
}

#[test]
fn accumulator_drops_points_out_of_bounds() {
    let mut a = ChaoticAccumulator::new(4, 3);
    assert!(!a.record(None));
    assert!(!a.record(Some((4, 0))));
    assert!(!a.record(Some((0, 3))));
    assert_eq!(a.non_zero(), 0);
    assert_eq!(a.density(), vec![0u32; 12]);
    let stats = a.record_batch(&vec![None, Some((9, 9)), Some((2, 1)), None]);
    assert_eq!(stats.newly_lit, 1);
    assert_eq!(stats.total_non_zero, 1);
    assert_eq!(a.density()[6], 1);
}

#[test]
fn accumulator_counts_newly_lit_cells() {
    let mut a = ChaoticAccumulator::new(4, 4);
    let first = a.record_batch(&vec![Some((0, 0)), Some((1, 0)), Some((0, 0))]);
    assert_eq!(first.newly_lit, 2);
    assert_eq!(first.total_non_zero, 2);
    let second = a.record_batch(&vec![Some((1, 0)), Some((3, 3))]);
    assert_eq!(second.newly_lit, 1);
    assert_eq!(second.total_non_zero, 3);
    assert_eq!(a.max_density(), 2);
}

fn pseudo_orbit(n: usize) -> Vec<Option<(usize, usize)>> {
    let mut v = Vec::new();
    let mut s: usize = 12345;
    for _ in 0..n {
        s = (s * 1103515245 + 12345) % 2147483648;
        let px = s % 23;
        let py = (s / 23) % 19;
        if s % 7 == 0 {
            v.push(None);
        } else {
            v.push(Some((px, py)));
        }
    }
    v
}

#[test]
fn one_batch_equals_two_halves() {
    let points = pseudo_orbit(1000);
    let mut whole = ChaoticAccumulator::new(20, 17);
    let all = whole.record_batch(&points);
    let mut split = ChaoticAccumulator::new(20, 17);
    let a = split.record_batch(&points[..500].to_vec());
    let b = split.record_batch(&points[500..].to_vec());
    assert_eq!(whole.density(), split.density());
    assert_eq!(all.total_non_zero, b.total_non_zero);
    assert_eq!(all.newly_lit, a.newly_lit + b.newly_lit);
}

#[test]
fn dense_and_sparse_backings_export_alike() {
    let mut dense = ChaoticAccumulator::with_backing(20, 17, false);
    let mut sparse = ChaoticAccumulator::with_backing(20, 17, true);
    assert!(!dense.use_chunked());
    assert!(sparse.use_chunked());
    for chunk in pseudo_orbit(3000).chunks(250) {
        let d = dense.record_batch(&chunk.to_vec());
        let s = sparse.record_batch(&chunk.to_vec());
        assert_eq!(d.newly_lit, s.newly_lit);
        assert_eq!(d.total_non_zero, s.total_non_zero);
    }
    assert_eq!(dense.density(), sparse.density());
    assert_eq!(dense.max_density(), sparse.max_density());
}

#[test]
fn zero_sized_accumulator_is_inert() {
    let mut a = ChaoticAccumulator::new(0, 5);
    assert!(!a.record(Some((0, 0))));
    assert_eq!(a.density(), Vec::<u32>::new());
    assert_eq!(a.get_rgba_rows(0, 5), Vec::<u8>::new());
}
