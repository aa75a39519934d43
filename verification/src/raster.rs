//! The RGBA raster that the engine reads and writes, with its size limits.
use vstd::prelude::*;

verus! {

/// Longest accepted side of an image, in pixels.
pub const MAX_SIDE: u32 = 16_384;

/// Largest accepted number of pixels in one image.
pub const MAX_PIXELS: u64 = 10_000_000;

/// An opaque 8-bit sRGB color.
#[derive(Clone, Copy, Debug, PartialEq, Eq, Hash, Structural)]
pub struct Rgb8 {
    pub r: u8,
    pub g: u8,
    pub b: u8,
}

impl Rgb8 {
    pub fn black() -> (color: Rgb8)
        ensures
            color == (Rgb8 { r: 0, g: 0, b: 0 }),
    {
        Rgb8 { r: 0, g: 0, b: 0 }
    }

    pub fn white() -> (color: Rgb8)
        ensures
            color == (Rgb8 { r: 255, g: 255, b: 255 }),
    {
        Rgb8 { r: 255, g: 255, b: 255 }
    }

    pub fn new(r: u8, g: u8, b: u8) -> (color: Rgb8)
        ensures
            color == (Rgb8 { r, g, b }),
    {
        Rgb8 { r, g, b }
    }
}

/// The number of pixels of a `width` by `height` image.
pub open spec fn pixel_count(width: int, height: int) -> int {
    width * height
}

/// Whether a width, a height and a buffer length describe an image that the engine accepts.
pub open spec fn valid_raster(width: int, height: int, len: int) -> bool {
    &&& 1 <= width <= MAX_SIDE
    &&& 1 <= height <= MAX_SIDE
    &&& pixel_count(width, height) <= MAX_PIXELS
    &&& len == 4 * pixel_count(width, height)
}

/// Byte offset of pixel `(x, y)` in a row-major RGBA buffer of the given width.
pub open spec fn offset_of(width: int, x: int, y: int) -> int {
    4 * (y * width + x)
}

/// What a raster holds: its width, its height and its RGBA bytes in row-major order.
pub ghost struct RasterView {
    pub width: u32,
    pub height: u32,
    pub rgba: Seq<u8>,
}

impl RasterView {
    pub open spec fn valid(self) -> bool {
        valid_raster(self.width as int, self.height as int, self.rgba.len() as int)
    }

    /// The alpha byte of pixel `(x, y)`.
    pub open spec fn alpha(self, x: int, y: int) -> u8 {
        self.rgba[offset_of(self.width as int, x, y) + 3]
    }
}

/// An RGBA image of 8 bits per channel whose size is inside the engine limits.
#[derive(Debug, PartialEq, Eq)]
pub struct Raster {
    width: u32,
    height: u32,
    rgba: Vec<u8>,
}

/// Why a width, height and buffer do not form a [`Raster`].
#[derive(Clone, Debug, PartialEq, Eq, Structural)]
pub enum RasterError {
    ZeroDimension,
    SideTooLong { width: u32, height: u32, maximum: u32 },
    TooManyPixels { pixels: u64, maximum: u64 },
    SizeOverflow,
    InvalidBufferLength { actual: usize, expected: usize },
}

/// The error that [`Raster::new`] reports for the given input, if any, in the order it checks.
pub open spec fn raster_check(width: u32, height: u32, len: usize) -> Option<RasterError> {
    if width == 0 || height == 0 {
        Some(RasterError::ZeroDimension)
    } else if width > MAX_SIDE || height > MAX_SIDE {
        Some(RasterError::SideTooLong { width, height, maximum: MAX_SIDE })
    } else if pixel_count(width as int, height as int) > MAX_PIXELS {
        Some(
            RasterError::TooManyPixels {
                pixels: pixel_count(width as int, height as int) as u64,
                maximum: MAX_PIXELS,
            },
        )
    } else if len != 4 * pixel_count(width as int, height as int) {
        Some(
            RasterError::InvalidBufferLength {
                actual: len,
                expected: (4 * pixel_count(width as int, height as int)) as usize,
            },
        )
    } else {
        None
    }
}

proof fn lemma_small_product(width: u32, height: u32)
    requires
        width <= MAX_SIDE,
        height <= MAX_SIDE,
    ensures
        0 <= pixel_count(width as int, height as int) <= MAX_SIDE * MAX_SIDE,
{
    assert(width * height <= MAX_SIDE * MAX_SIDE) by (nonlinear_arith)
        requires
            width <= MAX_SIDE,
            height <= MAX_SIDE,
    ;
}

impl Clone for Raster {
    fn clone(&self) -> (copy: Raster)
        ensures
            copy@ == self@,
    {
        proof {
            use_type_invariant(self);
        }
        Raster { width: self.width, height: self.height, rgba: self.rgba.clone() }
    }
}

impl View for Raster {
    type V = RasterView;

    closed spec fn view(&self) -> RasterView {
        RasterView { width: self.width, height: self.height, rgba: self.rgba@ }
    }
}

impl Raster {
    #[verifier::type_invariant]
    spec fn inv(self) -> bool {
        valid_raster(self.width as int, self.height as int, self.rgba@.len() as int)
    }

    /// Checks the dimensions against the limits and the buffer against the dimensions.
    pub fn new(width: u32, height: u32, rgba: Vec<u8>) -> (result: Result<Raster, RasterError>)
        ensures
            raster_check(width, height, rgba@.len() as usize) matches Some(e) ==> result == Err::<
                Raster,
                RasterError,
            >(e),
            raster_check(width, height, rgba@.len() as usize) is None ==> (result matches Ok(r)
                && r@ == (RasterView { width, height, rgba: rgba@ })),
            result matches Ok(r) ==> r@.valid(),
    {
        if width == 0 || height == 0 {
            return Err(RasterError::ZeroDimension);
        }
        if width > MAX_SIDE || height > MAX_SIDE {
            return Err(RasterError::SideTooLong { width, height, maximum: MAX_SIDE });
        }
        proof {
            lemma_small_product(width, height);
        }
        let pixels: u64 = (width as u64) * (height as u64);
        if pixels > MAX_PIXELS {
            return Err(RasterError::TooManyPixels { pixels, maximum: MAX_PIXELS });
        }
        let expected: usize = (pixels * 4) as usize;
        if rgba.len() != expected {
            return Err(RasterError::InvalidBufferLength { actual: rgba.len(), expected });
        }
        Ok(Raster { width, height, rgba })
    }

    pub fn width(&self) -> (w: u32)
        ensures
            w == self@.width,
            self@.valid(),
    {
        proof {
            use_type_invariant(self);
        }
        self.width
    }

    pub fn height(&self) -> (h: u32)
        ensures
            h == self@.height,
            self@.valid(),
    {
        proof {
            use_type_invariant(self);
        }
        self.height
    }

    pub fn rgba(&self) -> (bytes: &[u8])
        ensures
            bytes@ == self@.rgba,
            self@.valid(),
    {
        proof {
            use_type_invariant(self);
        }
        self.rgba.as_slice()
    }

    pub fn into_rgba(self) -> (bytes: Vec<u8>)
        ensures
            bytes@ == self@.rgba,
            self@.valid(),
    {
        proof {
            use_type_invariant(&self);
        }
        self.rgba
    }
}

} // verus!
