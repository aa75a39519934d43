//! Pixel scale: the block grid that reduces an image and the nearest-neighbour expansion back.
use vstd::arithmetic::div_mod::lemma_fundamental_div_mod_converse;
use vstd::prelude::*;

use crate::raster::{offset_of, valid_raster, Raster, RasterError, RasterView, Rgb8, MAX_PIXELS};

verus! {

pub const MIN_SCALE: u8 = 1;

pub const MAX_SCALE: u8 = 16;

/// The side of the square blocks that form one logical pixel, from 1 through 16.
#[derive(Clone, Copy, Debug, PartialEq, Eq, Structural)]
pub struct Scale {
    value: u8,
}

/// A scale value outside 1 through 16.
#[derive(Clone, Copy, Debug, PartialEq, Eq, Structural)]
pub struct ScaleError {
    value: u8,
}

impl ScaleError {
    pub fn value(&self) -> (v: u8)
        ensures
            v == self.rejected(),
    {
        self.value
    }

    pub closed spec fn rejected(self) -> u8 {
        self.value
    }
}

impl View for Scale {
    type V = u8;

    closed spec fn view(&self) -> u8 {
        self.value
    }
}

impl Scale {
    /// Two scales are equal exactly when their block sides are.
    pub proof fn lemma_eq_iff_view_eq(a: Scale, b: Scale)
        ensures
            (a == b) <==> (a@ == b@),
    {
    }

    #[verifier::type_invariant]
    spec fn inv(self) -> bool {
        MIN_SCALE <= self.value <= MAX_SCALE
    }

    /// The scale of one sample per pixel.
    pub fn minimum() -> (s: Scale)
        ensures
            s@ == MIN_SCALE,
    {
        Scale { value: MIN_SCALE }
    }

    pub fn new(value: u8) -> (result: Result<Scale, ScaleError>)
        ensures
            MIN_SCALE <= value <= MAX_SCALE <==> result is Ok,
            result matches Ok(s) ==> s@ == value,
            result matches Err(e) ==> e.rejected() == value,
    {
        if MIN_SCALE <= value && value <= MAX_SCALE {
            Ok(Scale { value })
        } else {
            Err(ScaleError { value })
        }
    }

    pub fn get(self) -> (v: u8)
        ensures
            v == self@,
            MIN_SCALE <= v <= MAX_SCALE,
    {
        proof {
            use_type_invariant(&self);
        }
        self.value
    }
}

/// `a / b` rounded up.
pub open spec fn div_ceil(a: int, b: int) -> int {
    (a + b - 1) / b
}

/// The number of blocks of side `block` that cover `side` pixels, the partial last one included.
pub fn blocks_along(side: u32, block: u32) -> (n: u32)
    requires
        block >= 1,
    ensures
        n == div_ceil(side as int, block as int),
{
    let n: u32 = side / block;
    if side % block == 0 {
        assert(n == div_ceil(side as int, block as int)) by (nonlinear_arith)
            requires
                n == side / block,
                side % block == 0,
                block >= 1,
        ;
        n
    } else {
        assert(n + 1 == div_ceil(side as int, block as int) && n < side) by (nonlinear_arith)
            requires
                n == side / block,
                side % block != 0,
                block >= 1,
        ;
        n + 1
    }
}

/// The pixel rectangle `[start_x, end_x) × [start_y, end_y)` of one block or halftone cell.
#[derive(Clone, Copy, Debug, PartialEq, Eq, Structural)]
pub struct CellBounds {
    pub start_x: u32,
    pub start_y: u32,
    pub end_x: u32,
    pub end_y: u32,
}

pub open spec fn min_int(a: int, b: int) -> int {
    if a <= b {
        a
    } else {
        b
    }
}

impl CellBounds {
    /// The block at `(cell_x, cell_y)` of side `cell_size`, cut at the right and bottom edges.
    pub fn new(source: &Raster, cell_size: u32, cell_x: u32, cell_y: u32) -> (bounds: CellBounds)
        requires
            cell_size >= 1,
            cell_x < div_ceil(source@.width as int, cell_size as int),
            cell_y < div_ceil(source@.height as int, cell_size as int),
        ensures
            bounds.start_x == cell_x * cell_size,
            bounds.start_y == cell_y * cell_size,
            bounds.end_x == min_int(cell_x * cell_size + cell_size, source@.width as int),
            bounds.end_y == min_int(cell_y * cell_size + cell_size, source@.height as int),
            bounds.start_x < bounds.end_x <= source@.width,
            bounds.start_y < bounds.end_y <= source@.height,
    {
        let width = source.width();
        let height = source.height();
        proof {
            lemma_block_start(width, cell_size, cell_x);
            lemma_block_start(height, cell_size, cell_y);
        }
        let start_x = cell_x * cell_size;
        let start_y = cell_y * cell_size;
        let end_x = if width - start_x < cell_size {
            width
        } else {
            start_x + cell_size
        };
        let end_y = if height - start_y < cell_size {
            height
        } else {
            start_y + cell_size
        };
        CellBounds { start_x, start_y, end_x, end_y }
    }
}

/// A block that starts inside the covered range starts before its end.
proof fn lemma_block_start(side: u32, block: u32, index: u32)
    requires
        block >= 1,
        index < div_ceil(side as int, block as int),
    ensures
        index * block < side,
{
    assert(index * block < side) by (nonlinear_arith)
        requires
            block >= 1,
            index < (side as int + block as int - 1) / (block as int),
    ;
}

/// Index of logical sample `(x, y)` in a row-major grid of the given width.
pub fn sample_index(width: u32, x: u32, y: u32) -> (index: usize)
    requires
        y * width + x <= usize::MAX,
    ensures
        index == y * width + x,
{
    ((y as u64) * (width as u64) + (x as u64)) as usize
}

/// Byte offset of pixel `(x, y)` in a row-major RGBA buffer of the given width.
pub fn pixel_offset(width: u32, x: u32, y: u32) -> (offset: usize)
    requires
        4 * (y * width + x) <= usize::MAX,
    ensures
        offset == offset_of(width as int, x as int, y as int),
{
    (((y as u64) * (width as u64) + (x as u64)) * 4) as usize
}

/// The color that the nearest-neighbour expansion gives pixel `q` of the source image.
pub open spec fn expanded_color(source: RasterView, scale: int, colors: Seq<Rgb8>, q: int) -> Rgb8 {
    let w = source.width as int;
    colors[(q / w) / scale * div_ceil(w, scale) + (q % w) / scale]
}

/// Byte `k` of pixel `q` of the expansion: the block's color, and the source pixel's own alpha.
pub open spec fn expanded_byte(
    source: RasterView,
    scale: int,
    colors: Seq<Rgb8>,
    q: int,
    k: int,
) -> u8 {
    let color = expanded_color(source, scale, colors, q);
    if k == 0 {
        color.r
    } else if k == 1 {
        color.g
    } else if k == 2 {
        color.b
    } else {
        source.rgba[4 * q + 3]
    }
}

/// The RGBA bytes of the expansion of `colors`, one per block, over the source image.
pub open spec fn expanded_rgba(source: RasterView, scale: int, colors: Seq<Rgb8>) -> Seq<u8> {
    Seq::new(source.rgba.len(), |i: int| expanded_byte(source, scale, colors, i / 4, i % 4))
}

/// The number of logical samples of a source image at a scale.
pub open spec fn logical_len(source: RasterView, scale: int) -> int {
    div_ceil(source.width as int, scale) * div_ceil(source.height as int, scale)
}

proof fn lemma_block_index(w: int, h: int, s: int, x: int, y: int)
    requires
        s >= 1,
        0 <= x < w,
        0 <= y < h,
    ensures
        0 <= (y / s) * div_ceil(w, s) + x / s < div_ceil(w, s) * div_ceil(h, s),
{
    assert(x / s < div_ceil(w, s)) by (nonlinear_arith)
        requires
            s >= 1,
            0 <= x < w,
    ;
    assert(y / s < div_ceil(h, s)) by (nonlinear_arith)
        requires
            s >= 1,
            0 <= y < h,
    ;
    assert(0 <= (y / s) * div_ceil(w, s) + x / s < div_ceil(w, s) * div_ceil(h, s))
        by (nonlinear_arith)
        requires
            s >= 1,
            0 <= x,
            0 <= y,
            x / s < div_ceil(w, s),
            y / s < div_ceil(h, s),
    ;
}

/// Paints each pixel with the color chosen for its block and keeps the pixel's own alpha.
pub fn expand(source: &Raster, scale: Scale, colors: &[Rgb8]) -> (result: Result<
    Raster,
    RasterError,
>)
    requires
        colors@.len() == logical_len(source@, scale@ as int),
    ensures
        result matches Ok(r) && r@ == (RasterView {
            width: source@.width,
            height: source@.height,
            rgba: expanded_rgba(source@, scale@ as int, colors@),
        }),
{
    let width = source.width();
    let height = source.height();
    let rgba = source.rgba();
    let s: u32 = scale.get() as u32;
    let logical_width = blocks_along(width, s);
    let ghost w = width as int;
    let ghost h = height as int;
    let ghost spec_rgba = expanded_rgba(source@, s as int, colors@);
    let mut out: Vec<u8> = Vec::new();
    let mut y: u32 = 0;
    while y < height
        invariant
            source@.valid(),
            w == source@.width,
            h == source@.height,
            width == w,
            height == h,
            rgba@ == source@.rgba,
            s == scale@,
            1 <= s <= 16,
            logical_width == div_ceil(w, s as int),
            colors@.len() == logical_len(source@, s as int),
            spec_rgba == expanded_rgba(source@, s as int, colors@),
            0 <= y <= height,
            out@.len() == 4 * (y * w),
            forall|i: int| 0 <= i < out@.len() ==> out@[i] == spec_rgba[i],
        decreases height - y,
    {
        let mut x: u32 = 0;
        while x < width
            invariant
                source@.valid(),
                w == source@.width,
                h == source@.height,
                width == w,
                height == h,
                rgba@ == source@.rgba,
                s == scale@,
                1 <= s <= 16,
                logical_width == div_ceil(w, s as int),
                colors@.len() == logical_len(source@, s as int),
                spec_rgba == expanded_rgba(source@, s as int, colors@),
                0 <= y < height,
                0 <= x <= width,
                out@.len() == 4 * (y * w + x),
                forall|i: int| 0 <= i < out@.len() ==> out@[i] == spec_rgba[i],
            decreases width - x,
        {
            let ghost q = y * w + x;
            proof {
                assert(0 <= q < w * h) by (nonlinear_arith)
                    requires
                        q == y * w + x,
                        0 <= x < w,
                        0 <= y < h,
                ;
                lemma_fundamental_div_mod_converse(q, w, y as int, x as int);
                lemma_block_index(w, h, s as int, x as int, y as int);
            }
            let n_colors = colors.len();
            let index: usize = ((y / s) as usize) * (logical_width as usize) + ((x / s) as usize);
            let color = colors[index];
            let offset: usize = ((y as usize) * (width as usize) + (x as usize)) * 4;
            let alpha = rgba[offset + 3];
            out.push(color.r);
            out.push(color.g);
            out.push(color.b);
            out.push(alpha);
            proof {
                assert forall|i: int| 0 <= i < out@.len() implies out@[i] == spec_rgba[i] by {
                    if i >= 4 * q {
                        assert(i / 4 == q);
                        assert(i % 4 == i - 4 * q);
                    }
                }
            }
            x = x + 1;
        }
        assert(4 * (y * w + w) == 4 * ((y + 1) * w)) by (nonlinear_arith);
        y = y + 1;
    }
    proof {
        assert(h * w == w * h) by (nonlinear_arith);
        assert(out@ =~= spec_rgba);
    }
    Raster::new(width, height, out)
}

/// The byte index of channel `k` of pixel `(x, y)` of the source lies inside the image, and the
/// expansion reads it back as that pixel and channel.
proof fn lemma_pixel_byte(source: RasterView, x: int, y: int, k: int)
    requires
        source.valid(),
        0 <= x < source.width,
        0 <= y < source.height,
        0 <= k < 4,
    ensures
        0 <= offset_of(source.width as int, x, y) + k < source.rgba.len(),
        (offset_of(source.width as int, x, y) + k) / 4 == y * source.width + x,
        (offset_of(source.width as int, x, y) + k) % 4 == k,
        (y * source.width + x) / (source.width as int) == y,
        (y * source.width + x) % (source.width as int) == x,
{
    let w = source.width as int;
    let h = source.height as int;
    let q = y * w + x;
    assert(0 <= q < w * h) by (nonlinear_arith)
        requires
            q == y * w + x,
            0 <= x < w,
            0 <= y < h,
    ;
    lemma_fundamental_div_mod_converse(q, w, y, x);
    lemma_fundamental_div_mod_converse(4 * q + k, 4, q, k);
}

/// Expansion keeps the image's size and each pixel's own alpha, and paints a pixel with the
/// color chosen for its block, so all the pixels of one block get the same color.
pub proof fn law_expansion_keeps_alpha_and_paints_blocks(
    source: RasterView,
    scale: int,
    colors: Seq<Rgb8>,
    x1: int,
    y1: int,
    x2: int,
    y2: int,
    k: int,
)
    requires
        source.valid(),
        scale >= 1,
        0 <= x1 < source.width,
        0 <= y1 < source.height,
        0 <= x2 < source.width,
        0 <= y2 < source.height,
        x1 / scale == x2 / scale,
        y1 / scale == y2 / scale,
        0 <= k < 3,
    ensures
        expanded_rgba(source, scale, colors).len() == source.rgba.len(),
        expanded_rgba(source, scale, colors)[offset_of(source.width as int, x1, y1) + 3]
            == source.rgba[offset_of(source.width as int, x1, y1) + 3],
        expanded_rgba(source, scale, colors)[offset_of(source.width as int, x1, y1) + k]
            == expanded_rgba(source, scale, colors)[offset_of(source.width as int, x2, y2) + k],
        expanded_color(source, scale, colors, y1 * source.width + x1) == colors[(y1 / scale)
            * div_ceil(source.width as int, scale) + x1 / scale],
{
    lemma_pixel_byte(source, x1, y1, 3);
    lemma_pixel_byte(source, x1, y1, k);
    lemma_pixel_byte(source, x2, y2, k);
}

} // verus!
