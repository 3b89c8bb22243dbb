use fractal_core::accumulator::Rgb;
use fractal_core::scheme::ColorScheme;
use fractal_core::grid::{max_density, merge_density_grids, rgba_from_colors, tally};

#[test]
fn tally_counts_pixels_in_range() {
    let pixels = vec![(0, 0), (1, 1), (1, 1), (2, 0), (5, 0), (0, 7)];
    assert_eq!(tally(2, 2, &pixels), vec![1, 0, 0, 2]);
    assert_eq!(tally(0, 3, &pixels), Vec::<u32>::new());
}

#[test]
fn merge_adds_equal_shapes() {
    assert_eq!(merge_density_grids(&vec![1, 2, 3], &vec![10, 20, 30]), vec![11, 22, 33]);
    assert_eq!(merge_density_grids(&vec![u32::MAX, 1], &vec![5, 1]), vec![u32::MAX, 2]);
}

#[test]
fn merge_of_different_shapes_keeps_the_first() {
    assert_eq!(merge_density_grids(&vec![1, 2, 3], &vec![4, 5]), vec![1, 2, 3]);
    assert_eq!(merge_density_grids(&vec![], &vec![4]), Vec::<u32>::new());
}

#[test]
fn max_density_of_grids() {
    assert_eq!(max_density(&vec![]), 0);
    assert_eq!(max_density(&vec![3, 9, 2]), 9);
}

#[test]
fn colors_pack_as_opaque_rgba() {
    let colors: Vec<Rgb> = vec![(1, 2, 3), (4, 5, 6)];
    assert_eq!(rgba_from_colors(&colors), vec![1, 2, 3, 255, 4, 5, 6, 255]);
}

#[test]
fn scheme_codes() {
    assert_eq!(ColorScheme::from(0), ColorScheme::Magma);
    assert_eq!(ColorScheme::from(1), ColorScheme::Plasma);
    assert_eq!(ColorScheme::from(2), ColorScheme::Inferno);
    assert_eq!(ColorScheme::from(3), ColorScheme::Viridis);
    assert_eq!(ColorScheme::from(4), ColorScheme::Cividis);
    assert_eq!(ColorScheme::from(5), ColorScheme::GnuPlot);
    assert_eq!(ColorScheme::from(6), ColorScheme::Bmy);
    assert_eq!(ColorScheme::from(7), ColorScheme::Inferno);
    assert_eq!(ColorScheme::from(-1), ColorScheme::Inferno);
}
