//! Images pasted from the system clipboard.
use vstd::prelude::*;

use crate::raster::{raster_check, Raster, RasterError, RasterView};

verus! {

#[verifier::external_type_specification]
#[verifier::external_body]
pub struct ExClipboardAccessError(arboard::Error);

/// The RGBA image that the clipboard holds, with the clipboard's own size types.
#[derive(Clone, Debug, PartialEq, Eq)]
pub struct ClipboardImage {
    pub width: usize,
    pub height: usize,
    pub rgba: Vec<u8>,
}

/// Why no image could be taken from the clipboard.
#[derive(Debug)]
pub enum ClipboardError {
    NoImage,
    Access(arboard::Error),
    InvalidImage(RasterError),
    DimensionOverflow,
}

/// A source of clipboard images; the application reads the system clipboard through it.
pub trait ImageClipboard {
    fn read_image(&mut self) -> Result<Raster, ClipboardError>;
}

/// Converts clipboard RGBA data into a raster: sizes that do not fit 32 bits are refused first,
/// then the raster checks apply.
pub fn clipboard_data_to_raster(image: ClipboardImage) -> (result: Result<Raster, ClipboardError>)
    ensures
        (image.width > u32::MAX || image.height > u32::MAX) ==> result matches Err(
            ClipboardError::DimensionOverflow,
        ),
        image.width <= u32::MAX && image.height <= u32::MAX ==> match raster_check(
            image.width as u32,
            image.height as u32,
            image.rgba@.len() as usize,
        ) {
            Some(e) => result matches Err(ClipboardError::InvalidImage(f)) && f == e,
            None => result matches Ok(r) && r@ == (RasterView {
                width: image.width as u32,
                height: image.height as u32,
                rgba: image.rgba@,
            }),
        },
{
    if image.width > u32::MAX as usize || image.height > u32::MAX as usize {
        return Err(ClipboardError::DimensionOverflow);
    }
    let width = image.width as u32;
    let height = image.height as u32;
    match Raster::new(width, height, image.rgba) {
        Ok(raster) => Ok(raster),
        Err(error) => Err(ClipboardError::InvalidImage(error)),
    }
}

} // verus!
