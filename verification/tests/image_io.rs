use dithering::png_writer::suggested_output_name;
use dithering::codec::{check_encoded_len, is_animated, png_has_animation, validate_dimensions, webp_has_animation};
use dithering::{
    clipboard_data_to_raster, ClipboardError, ClipboardImage, ImageClipboard, ImageCodec,
    ImageLoadError, PngWriter, Raster, RasterError, SourceFormat,
};
use image::{
    codecs::{jpeg::JpegEncoder, png::PngEncoder, webp::WebPEncoder},
    ExtendedColorType, ImageEncoder,
};

#[test]
fn decodes_png_jpeg_and_webp_by_content() {
    let rgba = [255, 0, 0, 128, 0, 255, 0, 255];
    let mut png = Vec::new();
    PngEncoder::new(&mut png)
        .write_image(&rgba, 2, 1, ExtendedColorType::Rgba8)
        .expect("PNG encoding succeeds");
    let decoded = ImageCodec::decode(&png).expect("PNG decoding succeeds");
    assert_eq!(decoded.format, SourceFormat::Png);
    assert_eq!(decoded.raster.rgba(), rgba);

    let mut jpeg = Vec::new();
    JpegEncoder::new_with_quality(&mut jpeg, 100)
        .write_image(&[255, 0, 0, 0, 255, 0], 2, 1, ExtendedColorType::Rgb8)
        .expect("JPEG encoding succeeds");
    let decoded = ImageCodec::decode(&jpeg).expect("JPEG decoding succeeds");
    assert_eq!(decoded.format, SourceFormat::Jpeg);
    assert_eq!((decoded.raster.width(), decoded.raster.height()), (2, 1));

    let mut webp = Vec::new();
    WebPEncoder::new_lossless(&mut webp)
        .write_image(&rgba, 2, 1, ExtendedColorType::Rgba8)
        .expect("WebP encoding succeeds");
    let decoded = ImageCodec::decode(&webp).expect("WebP decoding succeeds");
    assert_eq!(decoded.format, SourceFormat::WebP);
    assert_eq!(decoded.raster.rgba(), rgba);
}

#[test]
fn converts_rgb_and_sixteen_bit_png_input_to_rgba8() {
    let mut rgb_png = Vec::new();
    PngEncoder::new(&mut rgb_png)
        .write_image(&[10, 20, 30], 1, 1, ExtendedColorType::Rgb8)
        .expect("RGB PNG encoding succeeds");
    assert_eq!(
        ImageCodec::decode(&rgb_png).expect("RGB PNG decoding succeeds").raster.rgba(),
        &[10, 20, 30, 255]
    );

    let samples = [u16::MAX, 0, 32_896, u16::MAX];
    let rgba16: Vec<u8> = samples.into_iter().flat_map(u16::to_ne_bytes).collect();
    let mut png16 = Vec::new();
    PngEncoder::new(&mut png16)
        .write_image(&rgba16, 1, 1, ExtendedColorType::Rgba16)
        .expect("16-bit PNG encoding succeeds");
    assert_eq!(
        ImageCodec::decode(&png16).expect("16-bit PNG decoding succeeds").raster.rgba(),
        &[255, 0, 128, 255]
    );
}

#[test]
fn applies_jpeg_exif_orientation_before_creating_the_raster() {
    let mut jpeg = Vec::new();
    JpegEncoder::new_with_quality(&mut jpeg, 100)
        .write_image(&[255, 0, 0, 0, 255, 0], 2, 1, ExtendedColorType::Rgb8)
        .expect("JPEG encoding succeeds");
    insert_orientation_six(&mut jpeg);

    let decoded = ImageCodec::decode(&jpeg).expect("oriented JPEG decoding succeeds");

    assert_eq!((decoded.raster.width(), decoded.raster.height()), (1, 2));
}

#[test]
fn rejects_apng_and_animated_webp_before_decoding_a_frame() {
    let mut png = Vec::new();
    PngEncoder::new(&mut png)
        .write_image(&[0, 0, 0, 255], 1, 1, ExtendedColorType::Rgba8)
        .expect("PNG encoding succeeds");
    png.splice(
        33..33,
        [0, 0, 0, 8, b'a', b'c', b'T', b'L', 0, 0, 0, 1, 0, 0, 0, 0, 0, 0, 0, 0],
    );
    assert!(matches!(ImageCodec::decode(&png), Err(ImageLoadError::AnimatedImage)));

    let animated_webp =
        b"RIFF\x10\x00\x00\x00WEBPVP8X\x0a\x00\x00\x00\x02\x00\x00\x00\x00\x00\x00\x00\x00\x00";
    assert!(matches!(ImageCodec::decode(animated_webp), Err(ImageLoadError::AnimatedImage)));
}

#[test]
fn rejects_unsupported_and_corrupt_input_without_panicking() {
    assert!(matches!(ImageCodec::decode(b"GIF89a"), Err(ImageLoadError::UnsupportedFormat)));
    assert!(matches!(
        ImageCodec::decode(b"\x89PNG\r\n\x1a\ncorrupt"),
        Err(ImageLoadError::Decode(_))
    ));
}

#[test]
fn rejects_extreme_dimensions_from_the_header_before_pixel_allocation() {
    let too_wide = png_header(16_385, 1);
    assert!(ImageCodec::decode(&too_wide).is_err());

    let too_many_pixels = png_header(6_325, 6_325);
    assert!(ImageCodec::decode(&too_many_pixels).is_err());
}

#[test]
fn clipboard_adapter_contract_handles_image_and_absence() {
    struct FakeClipboard(Option<ClipboardImage>);
    impl ImageClipboard for FakeClipboard {
        fn read_image(&mut self) -> Result<Raster, ClipboardError> {
            let image = self.0.take().ok_or(ClipboardError::NoImage)?;
            clipboard_data_to_raster(image)
        }
    }

    let mut clipboard = FakeClipboard(Some(ClipboardImage {
        width: 1,
        height: 1,
        rgba: vec![1, 2, 3, 4],
    }));
    assert_eq!(clipboard.read_image().expect("image exists").rgba(), &[1, 2, 3, 4]);
    assert!(matches!(clipboard.read_image(), Err(ClipboardError::NoImage)));
}

#[test]
fn clipboard_sizes_are_checked() {
    let wrong = clipboard_data_to_raster(ClipboardImage { width: 2, height: 1, rgba: vec![0; 4] });
    assert!(matches!(
        wrong,
        Err(ClipboardError::InvalidImage(RasterError::InvalidBufferLength { actual: 4, expected: 8 }))
    ));
    let huge = clipboard_data_to_raster(ClipboardImage {
        width: usize::try_from(u64::from(u32::MAX) + 1).expect("64-bit test host"),
        height: 1,
        rgba: Vec::new(),
    });
    assert!(matches!(huge, Err(ClipboardError::DimensionOverflow)));
}

#[test]
fn header_dimensions_are_validated_in_order() {
    assert_eq!(validate_dimensions(0, 5), Err(RasterError::ZeroDimension));
    assert_eq!(
        validate_dimensions(16_385, 0),
        Err(RasterError::ZeroDimension)
    );
    assert_eq!(
        validate_dimensions(16_385, 2),
        Err(RasterError::SideTooLong { width: 16_385, height: 2, maximum: 16_384 })
    );
    assert_eq!(
        validate_dimensions(6_325, 6_325),
        Err(RasterError::TooManyPixels { pixels: 40_005_625, maximum: 10_000_000 })
    );
    assert_eq!(validate_dimensions(3_840, 2_160), Ok(()));
}

#[test]
fn header_errors_from_the_decoder_are_reported_as_invalid_rasters() {
    let too_wide = png_header(16_385, 1);
    assert!(matches!(
        ImageCodec::decode(&too_wide),
        Err(ImageLoadError::Decode(_) | ImageLoadError::InvalidRaster(RasterError::SideTooLong { .. }))
    ));
}

#[test]
fn animation_scanners_follow_the_chunk_lists() {
    let mut png = b"\x89PNG\r\n\x1a\n".to_vec();
    png.extend_from_slice(&[0, 0, 0, 0, b'I', b'E', b'N', b'D', 0, 0, 0, 0]);
    png.extend_from_slice(&[0, 0, 0, 0, b'a', b'c', b'T', b'L', 0, 0, 0, 0]);
    assert!(!png_has_animation(&png), "chunks after IEND are ignored");
    let mut png = b"\x89PNG\r\n\x1a\n".to_vec();
    png.extend_from_slice(&[0, 0, 0, 1, b't', b'E', b'X', b't', 7, 0, 0, 0, 0]);
    png.extend_from_slice(&[0, 0, 0, 0, b'a', b'c', b'T', b'L']);
    assert!(png_has_animation(&png));
    assert!(is_animated(&png, SourceFormat::Png));
    assert!(!is_animated(&png, SourceFormat::Jpeg));

    let mut webp = b"RIFF\0\0\0\0WEBP".to_vec();
    webp.extend_from_slice(&[b'V', b'P', b'8', b'L', 3, 0, 0, 0, 1, 2, 3, 0]);
    webp.extend_from_slice(&[b'A', b'N', b'M', b'F', 0, 0, 0, 0]);
    assert!(webp_has_animation(&webp), "odd chunk sizes are padded");
    assert!(!webp_has_animation(&webp[..20]), "short data is never animated");
}

#[test]
fn oversized_files_are_refused() {
    assert!(matches!(check_encoded_len(512 * 1024 * 1024 + 1), Err(ImageLoadError::EncodedFileTooLarge)));
    assert!(check_encoded_len(512 * 1024 * 1024).is_ok());
}

fn insert_orientation_six(jpeg: &mut Vec<u8>) {
    let exif = [
        b'E', b'x', b'i', b'f', 0, 0, b'I', b'I', 42, 0, 8, 0, 0, 0, 1, 0, 0x12, 0x01, 3, 0, 1, 0,
        0, 0, 6, 0, 0, 0, 0, 0, 0, 0,
    ];
    let segment_length = u16::try_from(exif.len() + 2).expect("small EXIF fixture");
    let mut segment = vec![0xff, 0xe1];
    segment.extend_from_slice(&segment_length.to_be_bytes());
    segment.extend_from_slice(&exif);
    jpeg.splice(2..2, segment);
}

fn png_header(width: u32, height: u32) -> Vec<u8> {
    let mut png = b"\x89PNG\r\n\x1a\n".to_vec();
    let mut chunk = b"IHDR".to_vec();
    chunk.extend_from_slice(&width.to_be_bytes());
    chunk.extend_from_slice(&height.to_be_bytes());
    chunk.extend_from_slice(&[8, 6, 0, 0, 0]);
    png.extend_from_slice(&13_u32.to_be_bytes());
    png.extend_from_slice(&chunk);
    png.extend_from_slice(&crc32(&chunk).to_be_bytes());
    png
}

fn crc32(bytes: &[u8]) -> u32 {
    let mut crc = u32::MAX;
    for &byte in bytes {
        crc ^= u32::from(byte);
        for _ in 0..8 {
            let mask = 0_u32.wrapping_sub(crc & 1);
            crc = (crc >> 1) ^ (0xedb8_8320 & mask);
        }
    }
    !crc
}

#[test]
fn an_encoded_png_decodes_to_the_same_raster() {
    let rgba = vec![
        255, 0, 0, 255, 0, 255, 0, 128, 0, 0, 255, 0, 10, 20, 30, 40, 50, 60, 70, 80, 90, 100,
        110, 120,
    ];
    let raster = Raster::new(3, 2, rgba.clone()).expect("valid fixture");
    let bytes = PngWriter::encode(&raster).expect("the raster encodes");
    assert_eq!(&bytes[..8], &[0x89, 0x50, 0x4e, 0x47, 0x0d, 0x0a, 0x1a, 0x0a]);
    let decoded = ImageCodec::decode(&bytes).expect("the file decodes");
    assert_eq!(decoded.format, SourceFormat::Png);
    assert_eq!(decoded.raster.width(), 3);
    assert_eq!(decoded.raster.height(), 2);
    assert_eq!(decoded.raster.rgba(), rgba.as_slice());
}

#[test]
fn the_suggested_name_ends_in_dither_png() {
    assert_eq!(suggested_output_name("foto"), "foto-dither.png");
    assert_eq!(suggested_output_name("mi imagen.final"), "mi imagen.final-dither.png");
    assert_eq!(suggested_output_name(""), "imagen-dither.png");
}
