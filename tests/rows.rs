use fractal_core::accumulator::ChaoticAccumulator;

fn shades(n: usize) -> Vec<(u8, u8, u8)> {
    (0..n).map(|i| (i as u8, 10 + i as u8, 20 + i as u8)).collect()
}

#[test]
fn rows_are_blank_before_a_mapping() {
    let mut a = ChaoticAccumulator::new(3, 2);
    a.record(Some((0, 0)));
    assert_eq!(a.get_rgba_rows(0, 2), vec![0u8; 24]);
}

#[test]
fn rows_are_blank_when_the_grid_was_empty_at_mapping() {
    let mut a = ChaoticAccumulator::new(3, 2);
    a.fill_mapping(shades(1));
    a.record(Some((0, 0)));
    assert_eq!(a.get_rgba_rows(0, 2), vec![0u8; 24]);
}

#[test]
fn rows_follow_the_shade_table() {
    for sparse in [false, true] {
        let mut a = ChaoticAccumulator::with_backing(3, 2, sparse);
        a.record_batch(&vec![Some((1, 0)), Some((1, 0)), Some((2, 1))]);
        a.fill_mapping(shades(3));
        let rows = a.get_rgba_rows(0, 2);
        assert_eq!(
            rows,
            vec![
                0, 10, 20, 255, 2, 12, 22, 255, 0, 10, 20, 255, //
                0, 10, 20, 255, 0, 10, 20, 255, 1, 11, 21, 255,
            ]
        );
        // one row from the second, clamped at the bottom
        assert_eq!(a.get_rgba_rows(1, 5), rows[12..].to_vec());
        // nothing past the grid, nothing for zero rows
        assert_eq!(a.get_rgba_rows(2, 1), Vec::<u8>::new());
        assert_eq!(a.get_rgba_rows(0, 0), Vec::<u8>::new());
    }
}

#[test]
fn counts_past_the_table_take_its_top_shade() {
    let mut a = ChaoticAccumulator::new(2, 1);
    a.record(Some((0, 0)));
    a.fill_mapping(shades(2));
    a.record_batch(&vec![Some((0, 0)), Some((0, 0)), Some((0, 0))]);
    assert_eq!(a.get_rgba_rows(0, 1), vec![1, 11, 21, 255, 0, 10, 20, 255]);
}
