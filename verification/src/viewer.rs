//! Viewer geometry: texture tiles, the reduced overview image and the view identities.
use vstd::prelude::*;

use crate::raster::{Raster, RasterView, MAX_SIDE};

verus! {

/// Longest side of one texture tile.
pub const MAX_TILE_SIDE: usize = 1024;

#[derive(Clone, Copy, Debug, PartialEq, Eq, Hash, Structural)]
pub enum ImageVariant {
    Original,
    Result,
}

/// The image a texture shows: which document, which revision, original or result.
#[derive(Clone, Copy, Debug, PartialEq, Eq, Hash, Structural)]
pub struct ViewImageId {
    pub document: u64,
    pub revision: u64,
    pub variant: ImageVariant,
}

#[derive(Clone, Copy, Debug, PartialEq, Eq, Structural)]
pub enum ZoomMode {
    Fit,
    Custom,
}

/// The tile side for a graphics device: at most 1024 and at most the device's texture limit.
pub fn tile_side(max_texture_side: usize) -> (side: usize)
    ensures
        max_texture_side == 0 ==> side == 1,
        max_texture_side > 0 ==> side == (if max_texture_side < MAX_TILE_SIDE {
            max_texture_side
        } else {
            MAX_TILE_SIDE
        }),
{
    if max_texture_side == 0 {
        1
    } else if max_texture_side < MAX_TILE_SIDE {
        max_texture_side
    } else {
        MAX_TILE_SIDE
    }
}

/// `a / b` rounded up.
pub open spec fn ceil_div(a: int, b: int) -> int {
    (a + b - 1) / b
}

/// The size of the overview texture: the image itself when it fits the limit, and otherwise
/// the longer side at the limit and the other scaled with it, rounded up, and at least one.
pub open spec fn reduced_dimensions(width: int, height: int, limit: int) -> (int, int) {
    if width <= limit && height <= limit {
        (width, height)
    } else if width >= height {
        (limit, if ceil_div(height * limit, width) >= 1 { ceil_div(height * limit, width) } else { 1 })
    } else {
        (if ceil_div(width * limit, height) >= 1 { ceil_div(width * limit, height) } else { 1 }, limit)
    }
}

/// Computes [`reduced_dimensions`] for an image of accepted size.
pub fn reduced_size(width: usize, height: usize, limit: usize) -> (size: (usize, usize))
    requires
        1 <= width <= MAX_SIDE,
        1 <= height <= MAX_SIDE,
        limit >= 1,
    ensures
        (size.0 as int, size.1 as int) == reduced_dimensions(width as int, height as int, limit as int),
        1 <= size.0 <= limit,
        1 <= size.1 <= limit,
{
    if width <= limit && height <= limit {
        (width, height)
    } else if width >= height {
        assert(height * limit <= width * width) by (nonlinear_arith)
            requires
                height <= width,
                limit < width,
        ;
        assert(width * width <= MAX_SIDE * MAX_SIDE) by (nonlinear_arith)
            requires
                width <= MAX_SIDE,
        ;
        let scaled = (height * limit + width - 1) / width;
        assert(scaled <= limit) by (nonlinear_arith)
            requires
                scaled == (height * limit + width - 1) / (width as int),
                height <= width,
                width >= 1,
        ;
        (limit, if scaled >= 1 { scaled } else { 1 })
    } else {
        assert(width * limit <= height * height) by (nonlinear_arith)
            requires
                width < height,
                limit < height,
        ;
        assert(height * height <= MAX_SIDE * MAX_SIDE) by (nonlinear_arith)
            requires
                height <= MAX_SIDE,
        ;
        let scaled = (width * limit + height - 1) / height;
        assert(scaled <= limit) by (nonlinear_arith)
            requires
                scaled == (width * limit + height - 1) / (height as int),
                width < height,
                height >= 1,
        ;
        (if scaled >= 1 { scaled } else { 1 }, limit)
    }
}

/// `a * b`, or the largest `usize` where the product does not fit.
pub open spec fn saturating_product(a: int, b: int) -> int {
    if a * b > usize::MAX {
        usize::MAX as int
    } else {
        a * b
    }
}

/// The first pixel column or row of a tile.
pub open spec fn tile_start(index: int, side: int) -> int {
    saturating_product(index, side)
}

/// The number of pixels of a tile along one axis: the tile side, cut at the image edge.
pub open spec fn tile_extent(image: int, start: int, side: int) -> int {
    if start >= image {
        0
    } else if image - start < side {
        image - start
    } else {
        side
    }
}

/// The RGBA bytes of the first `rows` rows of the tile, each row copied from the image.
pub open spec fn tile_rows(
    image: RasterView,
    start_x: int,
    start_y: int,
    tile_width: int,
    rows: int,
) -> Seq<u8>
    decreases rows,
{
    if rows <= 0 || tile_width <= 0 {
        Seq::empty()
    } else {
        let w = image.width as int;
        let row_start = 4 * ((start_y + rows - 1) * w + start_x);
        tile_rows(image, start_x, start_y, tile_width, rows - 1) + image.rgba.subrange(
            row_start,
            row_start + 4 * tile_width,
        )
    }
}

fn saturating_mul(a: usize, b: usize) -> (product: usize)
    ensures
        product == saturating_product(a as int, b as int),
{
    if a != 0 && b > usize::MAX / a {
        assert(a * b > usize::MAX) by (nonlinear_arith)
            requires
                a != 0,
                b > usize::MAX / a,
        ;
        usize::MAX
    } else {
        assert(a * b <= usize::MAX) by (nonlinear_arith)
            requires
                a == 0 || b <= usize::MAX / a,
        ;
        a * b
    }
}

/// The width, height and RGBA bytes of tile `(tile_x, tile_y)`; an edge tile keeps only the
/// pixels inside the image.
pub fn tile_rgba(raster: &Raster, tile_x: u32, tile_y: u32, tile_side: usize) -> (tile: (
    usize,
    usize,
    Vec<u8>,
))
    ensures
        tile.0 == tile_extent(
            raster@.width as int,
            tile_start(tile_x as int, tile_side as int),
            tile_side as int,
        ),
        tile.1 == tile_extent(
            raster@.height as int,
            tile_start(tile_y as int, tile_side as int),
            tile_side as int,
        ),
        tile.2@ == tile_rows(
            raster@,
            tile_start(tile_x as int, tile_side as int),
            tile_start(tile_y as int, tile_side as int),
            tile.0 as int,
            tile.1 as int,
        ),
{
    let width = raster.width() as usize;
    let height = raster.height() as usize;
    let rgba = raster.rgba();
    let start_x = saturating_mul(tile_x as usize, tile_side);
    let start_y = saturating_mul(tile_y as usize, tile_side);
    let tile_width = if start_x >= width {
        0
    } else if width - start_x < tile_side {
        width - start_x
    } else {
        tile_side
    };
    let tile_height = if start_y >= height {
        0
    } else if height - start_y < tile_side {
        height - start_y
    } else {
        tile_side
    };
    let mut out: Vec<u8> = Vec::new();
    let mut row: usize = 0;
    while row < tile_height
        invariant
            raster@.valid(),
            width == raster@.width,
            height == raster@.height,
            rgba@ == raster@.rgba,
            tile_width == tile_extent(width as int, start_x as int, tile_side as int),
            tile_height == tile_extent(height as int, start_y as int, tile_side as int),
            row <= tile_height,
            out@ == tile_rows(raster@, start_x as int, start_y as int, tile_width as int, row as int),
        decreases tile_height - row,
    {
        let y = start_y + row;
        let column: usize = if tile_width == 0 {
            0
        } else {
            start_x
        };
        proof {
            assert(y < height);
            assert(column + tile_width <= width);
            assert((y * width + column + tile_width) * 4 <= width * height * 4) by (nonlinear_arith)
                requires
                    y < height,
                    column + tile_width <= width,
            ;
        }
        let row_start: usize = (y * width + column) * 4;
        let row_end: usize = row_start + tile_width * 4;
        let ghost before = out@;
        let mut i: usize = row_start;
        while i < row_end
            invariant
                rgba@ == raster@.rgba,
                row_start <= i <= row_end,
                row_end <= rgba@.len(),
                out@ == before + rgba@.subrange(row_start as int, i as int),
            decreases row_end - i,
        {
            out.push(rgba[i]);
            proof {
                assert(rgba@.subrange(row_start as int, i + 1) =~= rgba@.subrange(
                    row_start as int,
                    i as int,
                ).push(rgba@[i as int]));
            }
            i = i + 1;
        }
        row = row + 1;
    }
    (tile_width, tile_height, out)
}

/// The RGBA bytes of pixel `(x, y)`.
pub fn rgba_at(raster: &Raster, x: u32, y: u32) -> (pixel: [u8; 4])
    requires
        x < raster@.width,
        y < raster@.height,
    ensures
        pixel@ == raster@.rgba.subrange(
            4 * (y * raster@.width + x),
            4 * (y * raster@.width + x) + 4,
        ),
{
    let width = raster.width();
    let rgba = raster.rgba();
    proof {
        assert(raster@.valid());
        assert((y * width + x) * 4 + 4 <= width * raster@.height * 4) by (nonlinear_arith)
            requires
                x < width,
                y < raster@.height,
        ;
    }
    let offset: usize = (y as usize * width as usize + x as usize) * 4;
    let pixel = [rgba[offset], rgba[offset + 1], rgba[offset + 2], rgba[offset + 3]];
    proof {
        assert(pixel@ =~= raster@.rgba.subrange(offset as int, offset + 4));
    }
    pixel
}

/// The first and last tile, along one side of the image, to draw for a visible span whose pixel
/// coordinates start at `start` and end at `end`: one tile of margin on each side, kept inside
/// the image's `div_ceil(image_side, tile_side)` tiles.
pub fn visible_tile_range(start: usize, end: usize, tile_side: usize, image_side: usize) -> (range: (
    usize,
    usize,
))
    requires
        tile_side >= 1,
        image_side >= 1,
    ensures
        range.0 == (if start / tile_side >= 1 {
            start / tile_side - 1
        } else {
            0
        }),
        range.1 == (if end / tile_side + 1 <= ceil_div(image_side as int, tile_side as int) - 1 {
            end / tile_side + 1
        } else {
            ceil_div(image_side as int, tile_side as int) - 1
        }),
{
    let whole = image_side / tile_side;
    let tiles: usize = if image_side % tile_side == 0 {
        whole
    } else {
        assert(whole < image_side) by (nonlinear_arith)
            requires
                tile_side >= 1,
                whole == image_side / tile_side,
                image_side % tile_side != 0,
        ;
        whole + 1
    };
    proof {
        assert(tiles == ceil_div(image_side as int, tile_side as int) && tiles >= 1)
            by (nonlinear_arith)
            requires
                tile_side >= 1,
                image_side >= 1,
                whole == image_side / tile_side,
                tiles == whole + if image_side % tile_side == 0 {
                    0int
                } else {
                    1int
                },
        ;
    }
    let first = start / tile_side;
    let first = if first >= 1 {
        first - 1
    } else {
        0
    };
    let last = end / tile_side;
    let last = if last >= tiles - 1 {
        tiles - 1
    } else {
        last + 1
    };
    (first, last)
}

} // verus!
