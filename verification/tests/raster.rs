use dithering::raster::MAX_PIXELS;
use dithering::scale::{expand, pixel_offset, sample_index, blocks_along, CellBounds};
use dithering::{EffectConfig, EffectKind, Palette, Raster, RasterError, Rgb8, Scale, MAX_SCALE, MAX_SIDE};

#[test]
fn accepts_a_valid_rgba_buffer() {
    let raster = Raster::new(2, 1, vec![0; 8]).expect("the fixture is valid");

    assert_eq!(raster.width(), 2);
    assert_eq!(raster.height(), 1);
    assert_eq!(raster.rgba(), &[0; 8]);
}

#[test]
fn rejects_zero_dimensions() {
    assert_eq!(Raster::new(0, 1, Vec::new()), Err(RasterError::ZeroDimension));
}

#[test]
fn rejects_a_side_over_the_limit_before_buffer_validation() {
    assert_eq!(
        Raster::new(MAX_SIDE + 1, 1, Vec::new()),
        Err(RasterError::SideTooLong {
            width: MAX_SIDE + 1,
            height: 1,
            maximum: MAX_SIDE,
        })
    );
}

#[test]
fn rejects_too_many_pixels_before_buffer_validation() {
    let side = 6_325;
    let pixels = u64::from(side) * u64::from(side);
    assert!(pixels > MAX_PIXELS);
    assert_eq!(
        Raster::new(side, side, Vec::new()),
        Err(RasterError::TooManyPixels {
            pixels,
            maximum: MAX_PIXELS,
        })
    );
}

#[test]
fn rejects_an_incorrect_buffer_length() {
    assert_eq!(
        Raster::new(2, 2, vec![0; 15]),
        Err(RasterError::InvalidBufferLength {
            actual: 15,
            expected: 16,
        })
    );
}

#[test]
fn validates_scale_range() {
    assert!(Scale::new(0).is_err());
    assert_eq!(Scale::new(1), Ok(Scale::minimum()));
    assert!(Scale::new(MAX_SCALE).is_ok());
    assert!(Scale::new(MAX_SCALE + 1).is_err());
}

#[test]
fn public_types_build_a_valid_default_request() {
    let source = Raster::new(1, 1, vec![0, 0, 0, 255]).expect("valid fixture");
    let palette = Palette::new(vec![Rgb8::black(), Rgb8::white()]).expect("valid palette");
    let scale = Scale::new(1).expect("valid scale");

    assert_eq!(source.width(), 1);
    assert_eq!(palette.colors().len(), 2);
    assert_eq!(scale.get(), 1);
    assert_eq!(EffectConfig::default().kind(), EffectKind::ErrorDiffusion);
}

#[test]
fn a_limit_sized_image_is_accepted_and_one_more_pixel_is_not() {
    assert!(Raster::new(10_000, 1_000, vec![0; 40_000_000]).is_ok());
    assert_eq!(
        Raster::new(10_001, 1_000, Vec::new()),
        Err(RasterError::TooManyPixels {
            pixels: 10_001_000,
            maximum: MAX_PIXELS,
        })
    );
}

#[test]
fn zero_height_is_checked_before_the_side_limit() {
    assert_eq!(
        Raster::new(MAX_SIDE + 1, 0, Vec::new()),
        Err(RasterError::ZeroDimension)
    );
}

#[test]
fn rgba_round_trips_through_into_rgba() {
    let bytes = vec![1, 2, 3, 4, 5, 6, 7, 8];
    let raster = Raster::new(1, 2, bytes.clone()).expect("valid fixture");
    assert_eq!(raster.clone().into_rgba(), bytes);
    assert_eq!(raster.clone(), raster);
}

#[test]
fn scale_error_reports_the_rejected_value() {
    assert_eq!(Scale::new(17).expect_err("out of range").value(), 17);
}

#[test]
fn block_counts_keep_partial_blocks() {
    assert_eq!(blocks_along(3, 2), 2);
    assert_eq!(blocks_along(4, 2), 2);
    assert_eq!(blocks_along(1, 16), 1);
    assert_eq!(blocks_along(33, 16), 3);
}

#[test]
fn cell_bounds_are_cut_at_the_image_edges() {
    let source = Raster::new(5, 3, vec![0; 60]).expect("valid fixture");
    assert_eq!(
        CellBounds::new(&source, 4, 1, 0),
        CellBounds { start_x: 4, start_y: 0, end_x: 5, end_y: 3 }
    );
    assert_eq!(
        CellBounds::new(&source, 2, 0, 1),
        CellBounds { start_x: 0, start_y: 2, end_x: 2, end_y: 3 }
    );
}

#[test]
fn offsets_are_row_major() {
    assert_eq!(sample_index(5, 2, 3), 17);
    assert_eq!(pixel_offset(5, 2, 3), 68);
}

#[test]
fn expansion_keeps_partial_blocks_and_every_alpha_byte() {
    let source = Raster::new(3, 1, vec![255, 255, 255, 0, 0, 0, 0, 128, 255, 255, 255, 64])
        .expect("the fixture is valid");
    let colors = [Rgb8::black(), Rgb8::white()];
    let output = expand(&source, Scale::new(2).expect("valid scale"), &colors)
        .expect("expansion keeps the size")
        .into_rgba();
    assert_eq!(output, vec![0, 0, 0, 0, 0, 0, 0, 128, 255, 255, 255, 64]);
}

#[test]
fn expansion_repeats_each_block_color_over_its_pixels() {
    let source = Raster::new(3, 3, vec![9; 36]).expect("the fixture is valid");
    let colors = [
        Rgb8::new(1, 1, 1),
        Rgb8::new(2, 2, 2),
        Rgb8::new(3, 3, 3),
        Rgb8::new(4, 4, 4),
    ];
    let output = expand(&source, Scale::new(2).expect("valid scale"), &colors)
        .expect("expansion keeps the size");
    let reds: Vec<u8> = output.rgba().chunks_exact(4).map(|p| p[0]).collect();
    assert_eq!(reds, vec![1, 1, 2, 1, 1, 2, 3, 3, 4]);
    assert!(output.rgba().chunks_exact(4).all(|p| p[3] == 9));
}
