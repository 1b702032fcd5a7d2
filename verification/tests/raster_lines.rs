use drawille::raster::line_points;

#[test]
fn single_point_segment() {
    assert_eq!(line_points(9, 4, 9, 4), vec![(9, 4)]);
}

#[test]
fn horizontal_segment() {
    assert_eq!(line_points(2, 1, 5, 1), vec![(2, 1), (3, 1), (4, 1), (5, 1)]);
    assert_eq!(line_points(5, 1, 2, 1), vec![(5, 1), (4, 1), (3, 1), (2, 1)]);
}

#[test]
fn diagonal_segment() {
    assert_eq!(line_points(0, 0, 2, 2), vec![(0, 0), (1, 1), (2, 2)]);
    assert_eq!(line_points(2, 2, 0, 0), vec![(2, 2), (1, 1), (0, 0)]);
}

#[test]
fn truncating_interpolation_repeats_points() {
    // Span 4 along x, 1 along y: y stays 0 until the last step.
    assert_eq!(
        line_points(0, 0, 4, 1),
        vec![(0, 0), (1, 0), (2, 0), (3, 0), (4, 1)]
    );
}

#[test]
fn steep_segment_with_mixed_direction() {
    assert_eq!(line_points(1, 5, 0, 2), vec![(1, 5), (1, 4), (1, 3), (0, 2)]);
}
