//! Effect settings that the engine accepts, each validated where it is built.
use vstd::prelude::*;

use crate::palette::Palette;
use crate::raster::Rgb8;
use crate::scale::{Scale, MIN_SCALE};

verus! {

pub const MIN_HALFTONE_CELL_SIZE: u8 = 2;

pub const MAX_HALFTONE_CELL_SIZE: u8 = 128;

#[derive(Clone, Copy, Debug, PartialEq, Eq, Structural)]
pub enum EffectKind {
    ErrorDiffusion,
    Ordered,
    Halftone,
}

#[derive(Clone, Copy, Debug, PartialEq, Eq, Structural)]
pub enum ErrorDiffusionAlgorithm {
    FloydSteinberg,
    Atkinson,
}

#[derive(Clone, Copy, Debug, PartialEq, Eq, Structural)]
pub enum BayerMatrix {
    Two,
    Four,
    Eight,
}

#[derive(Clone, Copy, Debug, PartialEq, Eq, Structural)]
pub enum DotShape {
    Circle,
    Square,
}

/// Floyd–Steinberg or Atkinson diffusion at a scale, over a palette.
#[derive(Clone, Debug, PartialEq, Eq)]
pub struct ErrorDiffusionConfig {
    algorithm: ErrorDiffusionAlgorithm,
    scale: Scale,
    palette: Palette,
}

impl ErrorDiffusionConfig {
    pub fn new(algorithm: ErrorDiffusionAlgorithm, scale: Scale, palette: Palette) -> (c: Self)
        ensures
            c.spec_algorithm() == algorithm,
            c.spec_scale() == scale,
            c.spec_palette() == palette,
    {
        ErrorDiffusionConfig { algorithm, scale, palette }
    }

    pub closed spec fn spec_algorithm(self) -> ErrorDiffusionAlgorithm {
        self.algorithm
    }

    pub closed spec fn spec_scale(self) -> Scale {
        self.scale
    }

    pub closed spec fn spec_palette(self) -> Palette {
        self.palette
    }

    pub fn algorithm(&self) -> (a: ErrorDiffusionAlgorithm)
        ensures
            a == self.spec_algorithm(),
    {
        self.algorithm
    }

    pub fn scale(&self) -> (s: Scale)
        ensures
            s == self.spec_scale(),
    {
        self.scale
    }

    pub fn palette(&self) -> (p: &Palette)
        ensures
            *p == self.spec_palette(),
    {
        &self.palette
    }
}

impl Default for ErrorDiffusionConfig {
    fn default() -> (c: Self)
        ensures
            c.spec_algorithm() == ErrorDiffusionAlgorithm::FloydSteinberg,
            c.spec_scale()@ == MIN_SCALE,
            c.spec_palette()@ == seq![Rgb8 { r: 0, g: 0, b: 0 }, Rgb8 { r: 255, g: 255, b: 255 }],
    {
        ErrorDiffusionConfig::new(
            ErrorDiffusionAlgorithm::FloydSteinberg,
            Scale::minimum(),
            Palette::default(),
        )
    }
}

/// Bayer ordered dithering with one matrix, at a scale, over a palette.
#[derive(Clone, Debug, PartialEq, Eq)]
pub struct OrderedConfig {
    matrix: BayerMatrix,
    scale: Scale,
    palette: Palette,
}

impl OrderedConfig {
    pub fn new(matrix: BayerMatrix, scale: Scale, palette: Palette) -> (c: Self)
        ensures
            c.spec_matrix() == matrix,
            c.spec_scale() == scale,
            c.spec_palette() == palette,
    {
        OrderedConfig { matrix, scale, palette }
    }

    pub closed spec fn spec_matrix(self) -> BayerMatrix {
        self.matrix
    }

    pub closed spec fn spec_scale(self) -> Scale {
        self.scale
    }

    pub closed spec fn spec_palette(self) -> Palette {
        self.palette
    }

    pub fn matrix(&self) -> (m: BayerMatrix)
        ensures
            m == self.spec_matrix(),
    {
        self.matrix
    }

    pub fn scale(&self) -> (s: Scale)
        ensures
            s == self.spec_scale(),
    {
        self.scale
    }

    pub fn palette(&self) -> (p: &Palette)
        ensures
            *p == self.spec_palette(),
    {
        &self.palette
    }
}

impl Default for OrderedConfig {
    fn default() -> (c: Self)
        ensures
            c.spec_matrix() == BayerMatrix::Four,
            c.spec_scale()@ == MIN_SCALE,
            c.spec_palette()@ == seq![Rgb8 { r: 0, g: 0, b: 0 }, Rgb8 { r: 255, g: 255, b: 255 }],
    {
        OrderedConfig::new(BayerMatrix::Four, Scale::minimum(), Palette::default())
    }
}

/// Why halftone settings are rejected.
#[derive(Clone, Copy, Debug, PartialEq, Eq, Structural)]
pub enum ConfigError {
    InvalidCellSize { value: u8 },
    InvalidMaximumDotSize { value: u8, cell_size: u8 },
}

/// Halftone dots on a background, one per cell, sized by the cell's brightness.
#[derive(Clone, Copy, Debug, PartialEq, Eq, Structural)]
pub struct HalftoneConfig {
    background: Rgb8,
    dot: Rgb8,
    shape: DotShape,
    cell_size: u8,
    max_size: u8,
    inverted: bool,
}

/// The error that [`HalftoneConfig::new`] reports for a cell size and maximum dot size, if any.
pub open spec fn halftone_check(cell_size: u8, max_size: u8) -> Option<ConfigError> {
    if !(MIN_HALFTONE_CELL_SIZE <= cell_size <= MAX_HALFTONE_CELL_SIZE) {
        Some(ConfigError::InvalidCellSize { value: cell_size })
    } else if max_size == 0 || max_size > cell_size {
        Some(ConfigError::InvalidMaximumDotSize { value: max_size, cell_size })
    } else {
        None
    }
}

impl HalftoneConfig {
    pub closed spec fn view_fields(self) -> (Rgb8, Rgb8, DotShape, u8, u8, bool) {
        (self.background, self.dot, self.shape, self.cell_size, self.max_size, self.inverted)
    }

    /// The cell size is from 2 through 128 and the dot size from 1 through the cell size.
    #[verifier::type_invariant]
    spec fn inv(self) -> bool {
        halftone_check(self.cell_size, self.max_size) is None
    }

    pub fn new(
        background: Rgb8,
        dot: Rgb8,
        shape: DotShape,
        cell_size: u8,
        max_size: u8,
        inverted: bool,
    ) -> (result: Result<Self, ConfigError>)
        ensures
            halftone_check(cell_size, max_size) matches Some(e) ==> result == Err::<
                HalftoneConfig,
                ConfigError,
            >(e),
            halftone_check(cell_size, max_size) is None ==> (result matches Ok(c)
                && c.view_fields() == (background, dot, shape, cell_size, max_size, inverted)),
    {
        if !(MIN_HALFTONE_CELL_SIZE <= cell_size && cell_size <= MAX_HALFTONE_CELL_SIZE) {
            return Err(ConfigError::InvalidCellSize { value: cell_size });
        }
        if max_size == 0 || max_size > cell_size {
            return Err(ConfigError::InvalidMaximumDotSize { value: max_size, cell_size });
        }
        Ok(HalftoneConfig { background, dot, shape, cell_size, max_size, inverted })
    }

    pub fn background(self) -> (c: Rgb8)
        ensures
            c == self.view_fields().0,
    {
        self.background
    }

    pub fn dot(self) -> (c: Rgb8)
        ensures
            c == self.view_fields().1,
    {
        self.dot
    }

    pub fn shape(self) -> (s: DotShape)
        ensures
            s == self.view_fields().2,
    {
        self.shape
    }

    pub fn cell_size(self) -> (n: u8)
        ensures
            n == self.view_fields().3,
            MIN_HALFTONE_CELL_SIZE <= n <= MAX_HALFTONE_CELL_SIZE,
    {
        proof {
            use_type_invariant(&self);
        }
        self.cell_size
    }

    /// The largest dot side, never larger than a cell.
    pub fn max_size(self) -> (n: u8)
        ensures
            n == self.view_fields().4,
            1 <= n <= self.view_fields().3,
    {
        proof {
            use_type_invariant(&self);
        }
        self.max_size
    }

    pub fn inverted(self) -> (b: bool)
        ensures
            b == self.view_fields().5,
    {
        self.inverted
    }
}

impl Default for HalftoneConfig {
    fn default() -> (c: Self)
        ensures
            c.view_fields() == (
                Rgb8 { r: 255, g: 255, b: 255 },
                Rgb8 { r: 0, g: 0, b: 0 },
                DotShape::Circle,
                8u8,
                8u8,
                false,
            ),
    {
        HalftoneConfig {
            background: Rgb8::white(),
            dot: Rgb8::black(),
            shape: DotShape::Circle,
            cell_size: 8,
            max_size: 8,
            inverted: false,
        }
    }
}

/// The effect to render, with its settings.
#[derive(Clone, Debug, PartialEq, Eq)]
pub enum EffectConfig {
    ErrorDiffusion(ErrorDiffusionConfig),
    Ordered(OrderedConfig),
    Halftone(HalftoneConfig),
}

impl EffectConfig {
    pub open spec fn spec_kind(&self) -> EffectKind {
        match self {
            EffectConfig::ErrorDiffusion(_) => EffectKind::ErrorDiffusion,
            EffectConfig::Ordered(_) => EffectKind::Ordered,
            EffectConfig::Halftone(_) => EffectKind::Halftone,
        }
    }

    pub fn kind(&self) -> (k: EffectKind)
        ensures
            k == self.spec_kind(),
    {
        match self {
            EffectConfig::ErrorDiffusion(_) => EffectKind::ErrorDiffusion,
            EffectConfig::Ordered(_) => EffectKind::Ordered,
            EffectConfig::Halftone(_) => EffectKind::Halftone,
        }
    }
}

impl Default for EffectConfig {
    fn default() -> (c: Self)
        ensures
            c matches EffectConfig::ErrorDiffusion(d) && d.spec_algorithm()
                == ErrorDiffusionAlgorithm::FloydSteinberg && d.spec_scale()@ == MIN_SCALE
                && d.spec_palette()@ == seq![Rgb8 { r: 0, g: 0, b: 0 }, Rgb8 { r: 255, g: 255, b: 255 }],
    {
        EffectConfig::ErrorDiffusion(ErrorDiffusionConfig::default())
    }
}

} // verus!
