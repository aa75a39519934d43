//! PNG encoding of results. Writing the file is left to the caller.
use vstd::prelude::*;

use crate::raster::Raster;
use vstd::string::StringExecFns;
use image::{codecs::png::PngEncoder, ExtendedColorType, ImageEncoder};

verus! {

/// The PNG file that `image` writes for an RGBA8 image of the given size and bytes, or `None`
/// where it reports an error.
pub uninterp spec fn png_file(width: u32, height: u32, rgba: Seq<u8>) -> Option<Seq<u8>>;

/// Calls `PngEncoder::write_image` of `image` with the RGBA8 color type, writing into a byte
/// vector. The encoder panics unless the buffer holds `4 * width * height` bytes, which
/// `requires` rules out. The contract only names the outcome, a function of the arguments.
#[verifier::external_body]
fn write_png_rgba8(width: u32, height: u32, rgba: &[u8]) -> (result: Result<Vec<u8>, image::ImageError>)
    requires
        rgba@.len() == 4 * (width * height),
    ensures
        result is Ok <==> png_file(width, height, rgba@) is Some,
        result matches Ok(bytes) ==> png_file(width, height, rgba@) == Some(bytes@),
{
    let mut bytes = Vec::new();
    PngEncoder::new(&mut bytes).write_image(rgba, width, height, ExtendedColorType::Rgba8)?;
    Ok(bytes)
}

/// Encodes results as RGBA8 PNG files.
pub struct PngWriter;

impl PngWriter {
    /// The PNG file of a raster: its size and its RGBA bytes, unchanged.
    pub fn encode(raster: &Raster) -> (result: Result<Vec<u8>, image::ImageError>)
        ensures
            result is Ok <==> png_file(raster@.width, raster@.height, raster@.rgba) is Some,
            result matches Ok(bytes) ==> png_file(raster@.width, raster@.height, raster@.rgba)
                == Some(bytes@),
    {
        let width = raster.width();
        let height = raster.height();
        write_png_rgba8(width, height, raster.rgba())
    }
}

/// The file name suggested for saving a result: the source's file stem followed by
/// `-dither.png`, with `imagen` in place of an empty stem.
pub open spec fn spec_output_file_name(stem: Seq<char>) -> Seq<char> {
    (if stem.len() == 0 {
        "imagen"@
    } else {
        stem
    }) + "-dither.png"@
}

/// Builds the suggested output file name from the source's file stem.
pub fn suggested_output_name(stem: &str) -> (name: String)
    ensures
        name@ == spec_output_file_name(stem@),
{
    let base = if stem.is_empty() {
        "imagen"
    } else {
        stem
    };
    let mut name = base.to_owned();
    name.append("-dither.png");
    name
}

} // verus!
