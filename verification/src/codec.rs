//! Content-based decoding of static PNG, JPEG and WebP images into rasters.
use vstd::prelude::*;

use crate::raster::{
    pixel_count, raster_check, Raster, RasterError, RasterView, MAX_PIXELS, MAX_SIDE,
};
use image::{DynamicImage, ImageDecoder, ImageFormat, ImageReader, Limits};
use std::io::Cursor;

verus! {

/// The formats that the application opens.
#[derive(Clone, Copy, Debug, PartialEq, Eq, Structural)]
pub enum SourceFormat {
    Png,
    Jpeg,
    WebP,
}

impl SourceFormat {
    pub open spec fn spec_name(self) -> Seq<char> {
        match self {
            SourceFormat::Png => "PNG"@,
            SourceFormat::Jpeg => "JPEG"@,
            SourceFormat::WebP => "WebP"@,
        }
    }

    /// The format's display name.
    pub fn name(self) -> (name: &'static str)
        ensures
            name@ == self.spec_name(),
    {
        match self {
            SourceFormat::Png => "PNG",
            SourceFormat::Jpeg => "JPEG",
            SourceFormat::WebP => "WebP",
        }
    }
}

/// Byte `i` of `bytes`, and zero past the end.
pub open spec fn byte_at(bytes: Seq<u8>, i: int) -> int {
    if 0 <= i < bytes.len() {
        bytes[i] as int
    } else {
        0
    }
}

/// The big-endian 32-bit number in `bytes[i..i + 4]`.
pub open spec fn be_u32_at(bytes: Seq<u8>, i: int) -> int {
    byte_at(bytes, i) * 16777216 + byte_at(bytes, i + 1) * 65536 + byte_at(bytes, i + 2) * 256
        + byte_at(bytes, i + 3)
}

/// The little-endian 32-bit number in `bytes[i..i + 4]`.
pub open spec fn le_u32_at(bytes: Seq<u8>, i: int) -> int {
    byte_at(bytes, i) + byte_at(bytes, i + 1) * 256 + byte_at(bytes, i + 2) * 65536 + byte_at(
        bytes,
        i + 3,
    ) * 16777216
}

/// Whether `bytes[i..i + 4]` holds the four-character tag `t`.
pub open spec fn tag_at(bytes: Seq<u8>, i: int, t: Seq<u8>) -> bool {
    &&& 0 <= i
    &&& i + 4 <= bytes.len()
    &&& bytes.subrange(i, i + 4) == t
}

pub open spec fn tag_actl() -> Seq<u8> {
    seq![0x61u8, 0x63u8, 0x54u8, 0x4cu8]
}

pub open spec fn tag_iend() -> Seq<u8> {
    seq![0x49u8, 0x45u8, 0x4eu8, 0x44u8]
}

pub open spec fn tag_vp8x() -> Seq<u8> {
    seq![0x56u8, 0x50u8, 0x38u8, 0x58u8]
}

pub open spec fn tag_anim() -> Seq<u8> {
    seq![0x41u8, 0x4eu8, 0x49u8, 0x4du8]
}

pub open spec fn tag_anmf() -> Seq<u8> {
    seq![0x41u8, 0x4eu8, 0x4du8, 0x46u8]
}

/// Whether the PNG chunk list that starts at `offset` has an animation control chunk before
/// `IEND`, before a chunk that runs past the end of the data, or before the data ends.
pub open spec fn png_animated_from(bytes: Seq<u8>, offset: int) -> bool
    decreases bytes.len() - offset,
{
    if offset < 0 || offset + 8 > bytes.len() {
        false
    } else if tag_at(bytes, offset + 4, tag_actl()) {
        true
    } else {
        let next = offset + 12 + be_u32_at(bytes, offset);
        if next > bytes.len() || tag_at(bytes, offset + 4, tag_iend()) {
            false
        } else {
            png_animated_from(bytes, next)
        }
    }
}

/// Whether PNG data is an APNG: its chunks, after the 8-byte signature, hold `acTL`.
pub open spec fn png_animated(bytes: Seq<u8>) -> bool {
    png_animated_from(bytes, 8)
}

/// Whether the RIFF chunk list that starts at `offset` holds an `ANIM` or `ANMF` chunk before a
/// chunk that runs past the end of the data, or before the data ends.
pub open spec fn webp_chunks_animated_from(bytes: Seq<u8>, offset: int) -> bool
    decreases bytes.len() - offset,
{
    if offset < 0 || offset + 8 > bytes.len() {
        false
    } else if tag_at(bytes, offset, tag_anim()) || tag_at(bytes, offset, tag_anmf()) {
        true
    } else {
        let length = le_u32_at(bytes, offset + 4);
        let next = offset + 8 + length + length % 2;
        if next > bytes.len() {
            false
        } else {
            webp_chunks_animated_from(bytes, next)
        }
    }
}

/// Whether WebP data is animated: data of more than 20 bytes whose extended header sets the
/// animation flag, or whose chunks hold animation data.
pub open spec fn webp_animated(bytes: Seq<u8>) -> bool {
    if bytes.len() <= 20 {
        false
    } else if tag_at(bytes, 12, tag_vp8x()) && bytes[20] & 2u8 != 0 {
        true
    } else {
        webp_chunks_animated_from(bytes, 12)
    }
}

/// Whether data of the given format is animated.
pub open spec fn animated(bytes: Seq<u8>, format: SourceFormat) -> bool {
    match format {
        SourceFormat::Png => png_animated(bytes),
        SourceFormat::WebP => webp_animated(bytes),
        SourceFormat::Jpeg => false,
    }
}

fn read_be_u32(bytes: &[u8], i: usize) -> (value: usize)
    requires
        i + 4 <= bytes@.len(),
    ensures
        value == be_u32_at(bytes@, i as int),
{
    let b0 = bytes[i] as usize;
    let b1 = bytes[i + 1] as usize;
    let b2 = bytes[i + 2] as usize;
    let b3 = bytes[i + 3] as usize;
    b0 * 16777216 + b1 * 65536 + b2 * 256 + b3
}

fn read_le_u32(bytes: &[u8], i: usize) -> (value: usize)
    requires
        i + 4 <= bytes@.len(),
    ensures
        value == le_u32_at(bytes@, i as int),
{
    let b0 = bytes[i] as usize;
    let b1 = bytes[i + 1] as usize;
    let b2 = bytes[i + 2] as usize;
    let b3 = bytes[i + 3] as usize;
    b0 + b1 * 256 + b2 * 65536 + b3 * 16777216
}

fn has_tag(bytes: &[u8], i: usize, t0: u8, t1: u8, t2: u8, t3: u8) -> (found: bool)
    requires
        i + 4 <= bytes@.len(),
    ensures
        found == tag_at(bytes@, i as int, seq![t0, t1, t2, t3]),
{
    let found = bytes[i] == t0 && bytes[i + 1] == t1 && bytes[i + 2] == t2 && bytes[i + 3] == t3;
    proof {
        if found {
            assert(bytes@.subrange(i as int, i + 4) =~= seq![t0, t1, t2, t3]);
        } else {
            if bytes@.subrange(i as int, i + 4) == seq![t0, t1, t2, t3] {
                assert(bytes@.subrange(i as int, i + 4)[0] == bytes@[i as int]);
                assert(bytes@.subrange(i as int, i + 4)[1] == bytes@[i + 1]);
                assert(bytes@.subrange(i as int, i + 4)[2] == bytes@[i + 2]);
                assert(bytes@.subrange(i as int, i + 4)[3] == bytes@[i + 3]);
            }
        }
    }
    found
}

/// Scans the PNG chunks for an animation control chunk.
pub fn png_has_animation(bytes: &[u8]) -> (found: bool)
    ensures
        found == png_animated(bytes@),
{
    let len = bytes.len();
    let mut offset: usize = 8;
    while offset <= len && len - offset >= 8
        invariant
            len == bytes@.len(),
            offset == 8 || offset <= len,
            png_animated_from(bytes@, offset as int) == png_animated(bytes@),
        decreases len - offset,
    {
        if has_tag(bytes, offset + 4, 0x61, 0x63, 0x54, 0x4c) {
            return true;
        }
        let length = read_be_u32(bytes, offset);
        let iend = has_tag(bytes, offset + 4, 0x49, 0x45, 0x4e, 0x44);
        if length > len || len - length < 12 || offset > len - length - 12 {
            return false;
        }
        if iend {
            return false;
        }
        offset = offset + 12 + length;
    }
    false
}

/// Looks for WebP animation: the extended header's flag, or an animation chunk.
pub fn webp_has_animation(bytes: &[u8]) -> (found: bool)
    ensures
        found == webp_animated(bytes@),
{
    let len = bytes.len();
    if len <= 20 {
        return false;
    }
    let feature_flags = bytes[20];
    if has_tag(bytes, 12, 0x56, 0x50, 0x38, 0x58) && feature_flags & 2 != 0 {
        return true;
    }
    let mut offset: usize = 12;
    while offset <= len && len - offset >= 8
        invariant
            len == bytes@.len(),
            len > 20,
            offset <= len,
            webp_chunks_animated_from(bytes@, offset as int) == webp_animated(bytes@),
        decreases len - offset,
    {
        if has_tag(bytes, offset, 0x41, 0x4e, 0x49, 0x4d) || has_tag(
            bytes,
            offset,
            0x41,
            0x4e,
            0x4d,
            0x46,
        ) {
            return true;
        }
        let length = read_le_u32(bytes, offset + 4);
        if length >= len {
            return false;
        }
        let padded = length + length % 2;
        if padded > len || len - padded < 8 || offset > len - padded - 8 {
            return false;
        }
        offset = offset + 8 + padded;
    }
    false
}

/// Whether the data is an animation that the application refuses.
pub fn is_animated(bytes: &[u8], format: SourceFormat) -> (found: bool)
    ensures
        found == animated(bytes@, format),
{
    match format {
        SourceFormat::Png => png_has_animation(bytes),
        SourceFormat::WebP => webp_has_animation(bytes),
        SourceFormat::Jpeg => false,
    }
}

/// The error that a header of the given size gives, in the order the checks run, if any.
pub open spec fn dimension_check(width: u32, height: u32) -> Option<RasterError> {
    if width == 0 || height == 0 {
        Some(RasterError::ZeroDimension)
    } else if width > MAX_SIDE || height > MAX_SIDE {
        Some(RasterError::SideTooLong { width, height, maximum: MAX_SIDE })
    } else if pixel_count(width as int, height as int) > MAX_PIXELS {
        Some(
            RasterError::TooManyPixels {
                pixels: pixel_count(width as int, height as int) as u64,
                maximum: MAX_PIXELS,
            },
        )
    } else {
        None
    }
}

/// Checks the size read from an image header before any pixel is decoded.
pub fn validate_dimensions(width: u32, height: u32) -> (result: Result<(), RasterError>)
    ensures
        dimension_check(width, height) matches Some(e) ==> result == Err::<(), RasterError>(e),
        dimension_check(width, height) is None ==> result is Ok,
{
    if width == 0 || height == 0 || width > MAX_SIDE || height > MAX_SIDE {
        let error = if width == 0 || height == 0 {
            RasterError::ZeroDimension
        } else {
            RasterError::SideTooLong { width, height, maximum: MAX_SIDE }
        };
        return Err(error);
    }
    assert((width as int) * (height as int) <= (MAX_SIDE as int) * (MAX_SIDE as int))
        by (nonlinear_arith)
        requires
            width <= MAX_SIDE,
            height <= MAX_SIDE,
    ;
    let pixels: u64 = (width as u64) * (height as u64);
    if pixels > MAX_PIXELS {
        return Err(RasterError::TooManyPixels { pixels, maximum: MAX_PIXELS });
    }
    Ok(())
}

/// Largest accepted compressed file, in bytes.
pub const MAX_ENCODED_BYTES: u64 = 536_870_912;

/// Most bytes that the decoder may allocate at once.
pub const MAX_DECODE_ALLOC: u64 = MAX_PIXELS * 8;

#[verifier::external_type_specification]
#[verifier::external_body]
pub struct ExImageError(image::ImageError);

#[verifier::external_type_specification]
#[verifier::external_body]
pub struct ExIoError(std::io::Error);

/// A decoded image and the format that its content showed.
#[derive(Clone, Debug, PartialEq, Eq)]
pub struct DecodedImage {
    pub raster: Raster,
    pub format: SourceFormat,
}

/// Why an image could not be opened.
#[derive(Debug)]
pub enum ImageLoadError {
    Read(std::io::Error),
    EncodedFileTooLarge,
    UnsupportedFormat,
    AnimatedImage,
    Decode(image::ImageError),
    InvalidRaster(RasterError),
}

/// The supported format that the leading magic bytes name, if any: the PNG signature, the JPEG
/// start-of-image marker, or a RIFF container of type `WEBP`.
pub open spec fn content_format(bytes: Seq<u8>) -> Option<SourceFormat> {
    if bytes.len() >= 8 && bytes.subrange(0, 8) == seq![
        0x89u8,
        0x50u8,
        0x4eu8,
        0x47u8,
        0x0du8,
        0x0au8,
        0x1au8,
        0x0au8,
    ] {
        Some(SourceFormat::Png)
    } else if bytes.len() >= 3 && bytes.subrange(0, 3) == seq![0xffu8, 0xd8u8, 0xffu8] {
        Some(SourceFormat::Jpeg)
    } else if bytes.len() >= 12 && bytes.subrange(0, 4) == seq![0x52u8, 0x49u8, 0x46u8, 0x46u8]
        && bytes.subrange(8, 12) == seq![0x57u8, 0x45u8, 0x42u8, 0x50u8] {
        Some(SourceFormat::WebP)
    } else {
        None
    }
}

/// Calls `image::guess_format`, which matches the leading bytes against a table of signatures
/// and returns the first format whose signature matches. Among the signatures, those of PNG,
/// JPEG and WebP share no prefix with each other or with the ones listed before them, so the
/// result is PNG, JPEG or WebP exactly when `content_format` says so; any other guess and no
/// guess both give `None`.
#[verifier::external_body]
fn guess_source_format(bytes: &[u8]) -> (format: Option<SourceFormat>)
    ensures
        format == content_format(bytes@),
{
    match image::guess_format(bytes) {
        Ok(ImageFormat::Png) => Some(SourceFormat::Png),
        Ok(ImageFormat::Jpeg) => Some(SourceFormat::Jpeg),
        Ok(ImageFormat::WebP) => Some(SourceFormat::WebP),
        _ => None,
    }
}

/// The width and height that the decoder of `image` reads from the header of data of the given
/// format under the given limits, or `None` where it refuses the data.
pub uninterp spec fn header_dimensions(
    bytes: Seq<u8>,
    format: SourceFormat,
    max_side: u32,
    max_alloc: u64,
) -> Option<(u32, u32)>;

/// The width, height and RGBA8 bytes that `image` decodes from the data after applying its EXIF
/// orientation, under the given limits, or `None` where it fails.
pub uninterp spec fn oriented_rgba(
    bytes: Seq<u8>,
    format: SourceFormat,
    max_side: u32,
    max_alloc: u64,
) -> Option<(u32, u32, Seq<u8>)>;

/// Builds an `image::ImageReader` for the format with width, height and allocation limits and
/// calls `into_decoder`, then `ImageDecoder::dimensions`. The contract only names the outcome:
/// success and the size it reports are a function of the arguments.
#[verifier::external_body]
fn read_header(bytes: &[u8], format: SourceFormat, max_side: u32, max_alloc: u64) -> (result:
    Result<(u32, u32), image::ImageError>)
    ensures
        result is Ok <==> header_dimensions(bytes@, format, max_side, max_alloc) is Some,
        result matches Ok(size) ==> header_dimensions(bytes@, format, max_side, max_alloc) == Some(
            size,
        ),
{
    let format = match format {
        SourceFormat::Png => ImageFormat::Png,
        SourceFormat::Jpeg => ImageFormat::Jpeg,
        SourceFormat::WebP => ImageFormat::WebP,
    };
    let mut reader = ImageReader::with_format(Cursor::new(bytes), format);
    let mut limits = Limits::default();
    limits.max_image_width = Some(max_side);
    limits.max_image_height = Some(max_side);
    limits.max_alloc = Some(max_alloc);
    reader.limits(limits);
    Ok(reader.into_decoder()?.dimensions())
}

/// Decodes the whole image with `image` under the same limits as [`read_header`], reads its
/// orientation, applies it and converts to RGBA8. The contract only names the outcome: success
/// and the pixels are a function of the arguments.
#[verifier::external_body]
fn read_oriented_rgba(bytes: &[u8], format: SourceFormat, max_side: u32, max_alloc: u64) -> (result:
    Result<(u32, u32, Vec<u8>), image::ImageError>)
    ensures
        result is Ok <==> oriented_rgba(bytes@, format, max_side, max_alloc) is Some,
        result matches Ok(image) ==> oriented_rgba(bytes@, format, max_side, max_alloc) == Some(
            (image.0, image.1, image.2@),
        ),
{
    let format = match format {
        SourceFormat::Png => ImageFormat::Png,
        SourceFormat::Jpeg => ImageFormat::Jpeg,
        SourceFormat::WebP => ImageFormat::WebP,
    };
    let mut reader = ImageReader::with_format(Cursor::new(bytes), format);
    reader.limits({ let mut l = Limits::default(); l.max_image_width = Some(max_side); l.max_image_height = Some(max_side); l.max_alloc = Some(max_alloc); l });
    let mut decoder = reader.into_decoder()?;
    let orientation = decoder.orientation()?;
    let mut image = DynamicImage::from_decoder(decoder)?;
    image.apply_orientation(orientation);
    let rgba = image.into_rgba8();
    Ok((rgba.width(), rgba.height(), rgba.into_raw()))
}

/// Turns the decoder's reading of the header into the error it causes, if any.
pub fn check_header(header: Result<(u32, u32), image::ImageError>) -> (result: Result<
    (),
    ImageLoadError,
>)
    ensures
        header matches Err(e) ==> result matches Err(ImageLoadError::Decode(f)) && f == e,
        header matches Ok((w, h)) ==> (dimension_check(w, h) matches Some(e) ==> result matches Err(
            ImageLoadError::InvalidRaster(f),
        ) && f == e),
        header matches Ok((w, h)) ==> (dimension_check(w, h) is None ==> result is Ok),
{
    match header {
        Err(error) => Err(ImageLoadError::Decode(error)),
        Ok((width, height)) => match validate_dimensions(width, height) {
            Ok(()) => Ok(()),
            Err(error) => Err(ImageLoadError::InvalidRaster(error)),
        },
    }
}

/// Turns the decoded pixels into a checked raster of the given format.
pub fn raster_from_decoded(
    format: SourceFormat,
    decoded: Result<(u32, u32, Vec<u8>), image::ImageError>,
) -> (result: Result<DecodedImage, ImageLoadError>)
    ensures
        decoded matches Err(e) ==> result matches Err(ImageLoadError::Decode(f)) && f == e,
        decoded matches Ok(image) ==> result_is(
            result,
            pixels_outcome(format, Some((image.0, image.1, image.2@))),
        ),
{
    match decoded {
        Err(error) => Err(ImageLoadError::Decode(error)),
        Ok((width, height, rgba)) => match Raster::new(width, height, rgba) {
            Ok(raster) => Ok(DecodedImage { raster, format }),
            Err(error) => Err(ImageLoadError::InvalidRaster(error)),
        },
    }
}

/// Refuses a compressed file that is larger than the limit.
pub fn check_encoded_len(len: u64) -> (result: Result<(), ImageLoadError>)
    ensures
        len > MAX_ENCODED_BYTES ==> result matches Err(ImageLoadError::EncodedFileTooLarge),
        len <= MAX_ENCODED_BYTES ==> result is Ok,
{
    if len > MAX_ENCODED_BYTES {
        Err(ImageLoadError::EncodedFileTooLarge)
    } else {
        Ok(())
    }
}

/// The kind of failure that decoding reports, for contracts.
pub ghost enum LoadFailure {
    UnsupportedFormat,
    AnimatedImage,
    Decode,
    InvalidRaster(RasterError),
}

/// Whether an error is the failure named.
pub open spec fn error_is(error: ImageLoadError, failure: LoadFailure) -> bool {
    match failure {
        LoadFailure::UnsupportedFormat => error is UnsupportedFormat,
        LoadFailure::AnimatedImage => error is AnimatedImage,
        LoadFailure::Decode => error is Decode,
        LoadFailure::InvalidRaster(e) => error matches ImageLoadError::InvalidRaster(f) && f == e,
    }
}

/// What the decoded raster is after the pixels were read, or why it is refused.
pub open spec fn pixels_outcome(format: SourceFormat, decoded: Option<(u32, u32, Seq<u8>)>) -> Result<
    (SourceFormat, RasterView),
    LoadFailure,
> {
    match decoded {
        None => Err(LoadFailure::Decode),
        Some((width, height, rgba)) => match raster_check(width, height, rgba.len() as usize) {
            Some(e) => Err(LoadFailure::InvalidRaster(e)),
            None => Ok((format, RasterView { width, height, rgba })),
        },
    }
}

/// What decoding the data gives: format detection, animation refusal, the header size check,
/// then the decoded and oriented pixels.
pub open spec fn decode_outcome(bytes: Seq<u8>) -> Result<(SourceFormat, RasterView), LoadFailure> {
    match content_format(bytes) {
        None => Err(LoadFailure::UnsupportedFormat),
        Some(format) => if animated(bytes, format) {
            Err(LoadFailure::AnimatedImage)
        } else {
            match header_dimensions(bytes, format, MAX_SIDE, MAX_DECODE_ALLOC) {
                None => Err(LoadFailure::Decode),
                Some((width, height)) => match dimension_check(width, height) {
                    Some(e) => Err(LoadFailure::InvalidRaster(e)),
                    None => pixels_outcome(
                        format,
                        oriented_rgba(bytes, format, MAX_SIDE, MAX_DECODE_ALLOC),
                    ),
                },
            }
        },
    }
}

/// Whether a decoding result is the outcome described.
pub open spec fn result_is(
    result: Result<DecodedImage, ImageLoadError>,
    outcome: Result<(SourceFormat, RasterView), LoadFailure>,
) -> bool {
    match outcome {
        Ok((format, view)) => result matches Ok(d) && d.format == format && d.raster@ == view,
        Err(failure) => result matches Err(e) && error_is(e, failure),
    }
}

/// Decodes static PNG, JPEG and WebP data, chosen by content.
pub struct ImageCodec;

impl ImageCodec {
    /// Detects the format by content, refuses animations, checks the header size before any
    /// pixel is decoded, then decodes, orients and validates the image.
    pub fn decode(bytes: &[u8]) -> (result: Result<DecodedImage, ImageLoadError>)
        ensures
            result_is(result, decode_outcome(bytes@)),
    {
        let format = match guess_source_format(bytes) {
            Some(format) => format,
            None => return Err(ImageLoadError::UnsupportedFormat),
        };
        if is_animated(bytes, format) {
            return Err(ImageLoadError::AnimatedImage);
        }
        let header = read_header(bytes, format, MAX_SIDE, MAX_DECODE_ALLOC);
        match check_header(header) {
            Ok(()) => {},
            Err(error) => return Err(error),
        }
        raster_from_decoded(format, read_oriented_rgba(bytes, format, MAX_SIDE, MAX_DECODE_ALLOC))
    }
}

/// A WebP file is refused as animated only for the animation flag or an animation chunk: where
/// the `VP8X` feature flags at byte 20 have the animation bit (2) clear and the chunk list
/// holds no `ANIM` or `ANMF` chunk, the data is not animated, and decoding does not refuse it
/// as an animation. A still image in the extended format, with transparency or a color
/// profile, is therefore accepted.
pub proof fn law_still_webp_is_not_refused_as_animated(bytes: Seq<u8>)
    requires
        bytes.len() > 20,
        (bytes[20] / 2) % 2 == 0,
        !webp_chunks_animated_from(bytes, 12),
    ensures
        !webp_animated(bytes),
        !animated(bytes, SourceFormat::WebP),
        content_format(bytes) == Some(SourceFormat::WebP) ==> decode_outcome(bytes)
            != Err::<(SourceFormat, RasterView), LoadFailure>(LoadFailure::AnimatedImage),
{
    let flags = bytes[20];
    assert(flags & 2u8 == 0u8) by (bit_vector)
        requires
            (flags / 2u8) % 2u8 == 0u8,
    ;
}

/// The animation bit of the `VP8X` feature flags alone marks a WebP file as animated.
pub proof fn law_animation_flag_marks_webp_animated(bytes: Seq<u8>)
    requires
        bytes.len() > 20,
        tag_at(bytes, 12, tag_vp8x()),
        (bytes[20] / 2) % 2 == 1,
    ensures
        webp_animated(bytes),
        content_format(bytes) == Some(SourceFormat::WebP) ==> decode_outcome(bytes)
            == Err::<(SourceFormat, RasterView), LoadFailure>(LoadFailure::AnimatedImage),
{
    let flags = bytes[20];
    assert(flags & 2u8 != 0u8) by (bit_vector)
        requires
            (flags / 2u8) % 2u8 == 1u8,
    ;
}

} // verus!
