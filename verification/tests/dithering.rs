use dithering::diffusion::{diffusion_targets, DiffusionTarget};
use dithering::ordered::{bayer_levels, bayer_rank, bayer_values, segment_pairs};
use dithering::{BayerMatrix, ErrorDiffusionAlgorithm};

#[test]
fn matrices_contain_each_expected_rank_once() {
    for matrix in [BayerMatrix::Two, BayerMatrix::Four, BayerMatrix::Eight] {
        let values = bayer_values(matrix);
        let mut sorted = values.clone();
        sorted.sort_unstable();
        let length = u8::try_from(values.len()).expect("the matrix size fits in u8");
        assert_eq!(sorted, (0..length).collect::<Vec<_>>());
    }
}

#[test]
fn matrices_match_the_reference_tables() {
    assert_eq!(bayer_values(BayerMatrix::Two), vec![0, 2, 3, 1]);
    assert_eq!(
        bayer_values(BayerMatrix::Four),
        vec![0, 8, 2, 10, 12, 4, 14, 6, 3, 11, 1, 9, 15, 7, 13, 5]
    );
    assert_eq!(
        bayer_values(BayerMatrix::Eight),
        vec![
            0, 32, 8, 40, 2, 34, 10, 42, 48, 16, 56, 24, 50, 18, 58, 26, 12, 44, 4, 36, 14, 46, 6,
            38, 60, 28, 52, 20, 62, 30, 54, 22, 3, 35, 11, 43, 1, 33, 9, 41, 51, 19, 59, 27, 49,
            17, 57, 25, 15, 47, 7, 39, 13, 45, 5, 37, 63, 31, 55, 23, 61, 29, 53, 21,
        ]
    );
}

#[test]
fn ranks_repeat_across_the_image() {
    assert_eq!(bayer_rank(BayerMatrix::Two, 1, 0), 2);
    assert_eq!(bayer_rank(BayerMatrix::Two, 3, 2), 2);
    assert_eq!(bayer_rank(BayerMatrix::Eight, 9, 1), 16);
    assert_eq!(bayer_levels(BayerMatrix::Four), 16);
    assert_eq!(bayer_levels(BayerMatrix::Eight), 64);
}

#[test]
fn thresholds_are_centered_inside_zero_and_one() {
    let threshold = |matrix, x, y| {
        (f32::from(bayer_rank(matrix, x, y)) + 0.5) / bayer_levels(matrix) as f32
    };
    assert!((threshold(BayerMatrix::Two, 0, 0) - 0.125).abs() < f32::EPSILON);
    assert!((threshold(BayerMatrix::Two, 1, 0) - 0.625).abs() < f32::EPSILON);
}

#[test]
fn segment_pairs_list_every_pair_once_in_order() {
    assert_eq!(segment_pairs(2), vec![(0, 1)]);
    assert_eq!(segment_pairs(4), vec![(0, 1), (0, 2), (0, 3), (1, 2), (1, 3), (2, 3)]);
    assert_eq!(segment_pairs(8).len(), 28);
    assert!(segment_pairs(1).is_empty());
}

fn index(width: u32, x: u32, y: u32) -> usize {
    usize::try_from(y * width + x).expect("small fixture")
}

#[test]
fn atkinson_writes_one_eighth_to_each_of_six_neighbors() {
    let visible = vec![true; 25];
    let targets = diffusion_targets(5, 5, &visible, 1, 1, ErrorDiffusionAlgorithm::Atkinson);

    let expected_neighbors = [(2, 1), (3, 1), (0, 2), (1, 2), (2, 2), (1, 3)];
    assert_eq!(targets.len(), expected_neighbors.len());
    for (target, (x, y)) in targets.iter().zip(expected_neighbors) {
        assert_eq!(
            *target,
            DiffusionTarget { index: index(5, x, y), numerator: 1, denominator: 8 }
        );
    }
}

#[test]
fn diffusion_does_not_write_to_transparent_neighbors() {
    let mut visible = vec![true; 6];
    let transparent = index(3, 2, 0);
    visible[transparent] = false;

    let targets =
        diffusion_targets(3, 2, &visible, 1, 0, ErrorDiffusionAlgorithm::FloydSteinberg);

    assert!(targets.iter().all(|target| target.index != transparent));
}

#[test]
fn floyd_steinberg_sends_the_whole_error_inside_the_image() {
    let visible = vec![true; 9];
    let targets =
        diffusion_targets(3, 3, &visible, 1, 1, ErrorDiffusionAlgorithm::FloydSteinberg);
    let weights: Vec<(usize, u8)> = targets.iter().map(|t| (t.index, t.numerator)).collect();
    assert_eq!(weights, vec![(5, 7), (6, 3), (7, 5), (8, 1)]);
    assert!(targets.iter().all(|t| t.denominator == 16));
}

#[test]
fn error_leaving_the_image_is_dropped() {
    let visible = vec![true; 4];
    let targets =
        diffusion_targets(2, 2, &visible, 1, 1, ErrorDiffusionAlgorithm::FloydSteinberg);
    assert!(targets.is_empty());
    let targets = diffusion_targets(2, 2, &visible, 0, 0, ErrorDiffusionAlgorithm::Atkinson);
    let indices: Vec<usize> = targets.iter().map(|t| t.index).collect();
    assert_eq!(indices, vec![1, 2, 3]);
}
