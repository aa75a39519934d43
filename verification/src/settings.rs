//! The user's effect settings and how they become an engine configuration.
use vstd::prelude::*;

use crate::config::{
    halftone_check, BayerMatrix, DotShape, EffectConfig, ErrorDiffusionAlgorithm,
    ErrorDiffusionConfig, HalftoneConfig, OrderedConfig,
};
use crate::palette::{valid_palette_len, Palette, MAX_PALETTE_COLORS, MIN_PALETTE_COLORS};
use crate::raster::Rgb8;
use crate::scale::{Scale, MAX_SCALE, MIN_SCALE};

verus! {

#[derive(Clone, Copy, Debug, PartialEq, Eq, Structural)]
pub enum ActiveEffect {
    ErrorDiffusion,
    Ordered,
    Halftone,
}

/// Everything the settings panel edits, kept even when a value is not valid for the engine.
#[derive(Clone, Debug, PartialEq, Eq)]
pub struct Settings {
    pub active_effect: ActiveEffect,
    pub scale: u8,
    pub palette: Vec<Rgb8>,
    pub diffusion_algorithm: ErrorDiffusionAlgorithm,
    pub bayer_matrix: BayerMatrix,
    pub halftone_background: Rgb8,
    pub halftone_dot: Rgb8,
    pub halftone_shape: DotShape,
    pub halftone_cell_size: u8,
    pub halftone_max_size: u8,
    pub halftone_inverted: bool,
}

/// The squared RGB distance between two colors.
pub open spec fn color_distance(first: Rgb8, second: Rgb8) -> int {
    let red = first.r - second.r;
    let green = first.g - second.g;
    let blue = first.b - second.b;
    red * red + green * green + blue * blue
}

pub open spec fn pair_distance(colors: Seq<Rgb8>, a: int, b: int) -> int {
    color_distance(colors[a], colors[b])
}

/// Whether pair `(a, b)` comes before pair `(i, j)` in the order `(0, 1), (0, 2), …, (1, 2), …`.
pub open spec fn pair_before(a: int, b: int, i: int, j: int) -> bool {
    a < i || (a == i && b < j)
}

/// Whether `(i, j)` is the first pair, in pair order, of two most distant colors.
pub open spec fn is_first_farthest(colors: Seq<Rgb8>, i: int, j: int) -> bool {
    &&& 0 <= i < j < colors.len()
    &&& forall|a: int, b: int|
        0 <= a < b < colors.len() ==> #[trigger] pair_distance(colors, a, b) <= pair_distance(
            colors,
            i,
            j,
        )
    &&& forall|a: int, b: int|
        0 <= a < b < colors.len() && pair_before(a, b, i, j) ==> #[trigger] pair_distance(
            colors,
            a,
            b,
        ) < pair_distance(colors, i, j)
}

/// The channel halfway between two channels, rounded down.
pub open spec fn spec_midpoint(first: u8, second: u8) -> u8 {
    ((first + second) / 2) as u8
}

pub open spec fn midpoint_color(first: Rgb8, second: Rgb8) -> Rgb8 {
    Rgb8 {
        r: spec_midpoint(first.r, second.r),
        g: spec_midpoint(first.g, second.g),
        b: spec_midpoint(first.b, second.b),
    }
}

pub fn midpoint(first: u8, second: u8) -> (m: u8)
    ensures
        m == spec_midpoint(first, second),
{
    let sum: u16 = first as u16 + second as u16;
    (sum / 2) as u8
}

pub fn rgb_distance(first: Rgb8, second: Rgb8) -> (d: u32)
    ensures
        d == color_distance(first, second),
{
    let red: i32 = first.r as i32 - second.r as i32;
    let green: i32 = first.g as i32 - second.g as i32;
    let blue: i32 = first.b as i32 - second.b as i32;
    assert(0 <= red * red <= 65025 && 0 <= green * green <= 65025 && 0 <= blue * blue <= 65025)
        by (nonlinear_arith)
        requires
            -255 <= red <= 255,
            -255 <= green <= 255,
            -255 <= blue <= 255,
    ;
    (red * red + green * green + blue * blue) as u32
}

/// Finds the first pair, in pair order, of two most distant colors.
pub fn farthest_pair(colors: &[Rgb8]) -> (pair: (usize, usize))
    requires
        colors@.len() >= 2,
    ensures
        is_first_farthest(colors@, pair.0 as int, pair.1 as int),
{
    let len = colors.len();
    let mut pair: (usize, usize) = (0, 1);
    let mut distance: u32 = 0;
    let mut first: usize = 0;
    while first < len
        invariant
            len == colors@.len(),
            len >= 2,
            first <= len,
            pair.0 < pair.1 < len,
            first == 0 ==> distance == 0 && pair == (0usize, 1usize),
            first > 0 ==> distance == pair_distance(colors@, pair.0 as int, pair.1 as int),
            first > 0 ==> pair.0 < first,
            forall|a: int, b: int|
                0 <= a < b < len && a < first ==> #[trigger] pair_distance(colors@, a, b)
                    <= distance,
            forall|a: int, b: int|
                0 <= a < b < len && a < first && pair_before(a, b, pair.0 as int, pair.1 as int)
                    ==> #[trigger] pair_distance(colors@, a, b) < distance,
        decreases len - first,
    {
        let mut second: usize = first + 1;
        while second < len
            invariant
                len == colors@.len(),
                len >= 2,
                first < len,
                first + 1 <= second <= len,
                pair.0 < pair.1 < len,
                pair.0 < first || (pair.0 == first && pair.1 <= second),
                first == 0 && second == 1 ==> distance == 0 && pair == (0usize, 1usize),
                !(first == 0 && second == 1) ==> distance == pair_distance(
                    colors@,
                    pair.0 as int,
                    pair.1 as int,
                ),
                forall|a: int, b: int|
                    0 <= a < b < len && (a < first || (a == first && b < second))
                        ==> #[trigger] pair_distance(colors@, a, b) <= distance,
                forall|a: int, b: int|
                    0 <= a < b < len && (a < first || (a == first && b < second)) && pair_before(
                        a,
                        b,
                        pair.0 as int,
                        pair.1 as int,
                    ) ==> #[trigger] pair_distance(colors@, a, b) < distance,
            decreases len - second,
        {
            let candidate = rgb_distance(colors[first], colors[second]);
            if candidate > distance {
                distance = candidate;
                pair = (first, second);
            }
            second = second + 1;
        }
        first = first + 1;
    }
    pair
}

/// `scale` where it is a valid scale, and the minimum scale otherwise.
pub open spec fn scale_or_minimum(scale: u8) -> u8 {
    if MIN_SCALE <= scale <= MAX_SCALE {
        scale
    } else {
        MIN_SCALE
    }
}

/// `colors` where they form a palette, and black and white otherwise.
pub open spec fn palette_or_default(colors: Seq<Rgb8>) -> Seq<Rgb8> {
    if valid_palette_len(colors.len() as int) {
        colors
    } else {
        seq![Rgb8 { r: 0, g: 0, b: 0 }, Rgb8 { r: 255, g: 255, b: 255 }]
    }
}

pub open spec fn min_u8(a: u8, b: u8) -> u8 {
    if a <= b {
        a
    } else {
        b
    }
}

impl Settings {
    /// The fields of the halftone configuration that the settings give: the user's values with
    /// the dot size capped at the cell size where they are valid, and the defaults otherwise.
    pub open spec fn halftone_fields(&self) -> (Rgb8, Rgb8, DotShape, u8, u8, bool) {
        let max_size = min_u8(self.halftone_max_size, self.halftone_cell_size);
        if halftone_check(self.halftone_cell_size, max_size) is None {
            (
                self.halftone_background,
                self.halftone_dot,
                self.halftone_shape,
                self.halftone_cell_size,
                max_size,
                self.halftone_inverted,
            )
        } else {
            (
                Rgb8 { r: 255, g: 255, b: 255 },
                Rgb8 { r: 0, g: 0, b: 0 },
                DotShape::Circle,
                8u8,
                8u8,
                false,
            )
        }
    }

    /// Whether an engine configuration is the one these settings describe.
    pub open spec fn describes(&self, config: EffectConfig) -> bool {
        match self.active_effect {
            ActiveEffect::ErrorDiffusion => config matches EffectConfig::ErrorDiffusion(c) && {
                &&& c.spec_algorithm() == self.diffusion_algorithm
                &&& c.spec_scale()@ == scale_or_minimum(self.scale)
                &&& c.spec_palette()@ == palette_or_default(self.palette@)
            },
            ActiveEffect::Ordered => config matches EffectConfig::Ordered(c) && {
                &&& c.spec_matrix() == self.bayer_matrix
                &&& c.spec_scale()@ == scale_or_minimum(self.scale)
                &&& c.spec_palette()@ == palette_or_default(self.palette@)
            },
            ActiveEffect::Halftone => config matches EffectConfig::Halftone(c) && c.view_fields()
                == self.halftone_fields(),
        }
    }

    fn valid_scale(&self) -> (s: Scale)
        ensures
            s@ == scale_or_minimum(self.scale),
    {
        match Scale::new(self.scale) {
            Ok(scale) => scale,
            Err(_) => Scale::minimum(),
        }
    }

    fn valid_palette(&self) -> (p: Palette)
        ensures
            p@ == palette_or_default(self.palette@),
    {
        match Palette::new(self.palette.clone()) {
            Ok(palette) => palette,
            Err(_) => Palette::default(),
        }
    }

    /// The engine configuration of the active effect; invalid values fall back to defaults.
    pub fn effect_config(&self) -> (config: EffectConfig)
        ensures
            self.describes(config),
    {
        match self.active_effect {
            ActiveEffect::ErrorDiffusion => EffectConfig::ErrorDiffusion(
                ErrorDiffusionConfig::new(
                    self.diffusion_algorithm,
                    self.valid_scale(),
                    self.valid_palette(),
                ),
            ),
            ActiveEffect::Ordered => EffectConfig::Ordered(
                OrderedConfig::new(self.bayer_matrix, self.valid_scale(), self.valid_palette()),
            ),
            ActiveEffect::Halftone => {
                let max_size = if self.halftone_max_size <= self.halftone_cell_size {
                    self.halftone_max_size
                } else {
                    self.halftone_cell_size
                };
                let halftone = match HalftoneConfig::new(
                    self.halftone_background,
                    self.halftone_dot,
                    self.halftone_shape,
                    self.halftone_cell_size,
                    max_size,
                    self.halftone_inverted,
                ) {
                    Ok(config) => config,
                    Err(_) => HalftoneConfig::default(),
                };
                EffectConfig::Halftone(halftone)
            },
        }
    }

    /// Inserts the midpoint of the two most distant colors between them, unless the palette
    /// already has the maximum number of colors.
    pub fn add_palette_color(&mut self)
        requires
            old(self).palette@.len() >= MIN_PALETTE_COLORS,
        ensures
            old(self).palette@.len() >= MAX_PALETTE_COLORS ==> *final(self) == *old(self),
            old(self).palette@.len() < MAX_PALETTE_COLORS ==> final(self).palette@.len() == old(
                self,
            ).palette@.len() + 1,
            valid_palette_len(old(self).palette@.len() as int) ==> valid_palette_len(
                final(self).palette@.len() as int,
            ),
            old(self).palette@.len() < MAX_PALETTE_COLORS ==> exists|i: int, j: int|
                is_first_farthest(old(self).palette@, i, j) && final(self).palette@ == old(
                    self,
                ).palette@.insert(j, midpoint_color(old(self).palette@[i], old(self).palette@[j])),
            final(self).active_effect == old(self).active_effect,
            final(self).scale == old(self).scale,
            final(self).diffusion_algorithm == old(self).diffusion_algorithm,
            final(self).bayer_matrix == old(self).bayer_matrix,
            final(self).halftone_background == old(self).halftone_background,
            final(self).halftone_dot == old(self).halftone_dot,
            final(self).halftone_shape == old(self).halftone_shape,
            final(self).halftone_cell_size == old(self).halftone_cell_size,
            final(self).halftone_max_size == old(self).halftone_max_size,
            final(self).halftone_inverted == old(self).halftone_inverted,
    {
        if self.palette.len() >= MAX_PALETTE_COLORS {
            return;
        }
        let pair = farthest_pair(self.palette.as_slice());
        let first = self.palette[pair.0];
        let second = self.palette[pair.1];
        let color = Rgb8::new(
            midpoint(first.r, second.r),
            midpoint(first.g, second.g),
            midpoint(first.b, second.b),
        );
        self.palette.insert(pair.1, color);
        assert(is_first_farthest(old(self).palette@, pair.0 as int, pair.1 as int));
    }

    /// Removes the color at `index` unless that would leave fewer than two colors.
    pub fn remove_palette_color(&mut self, index: usize)
        ensures
            old(self).palette@.len() > MIN_PALETTE_COLORS && index < old(self).palette@.len()
                ==> final(self).palette@ == old(self).palette@.remove(index as int),
            !(old(self).palette@.len() > MIN_PALETTE_COLORS && index < old(self).palette@.len())
                ==> final(self).palette@ == old(self).palette@,
            valid_palette_len(old(self).palette@.len() as int) ==> valid_palette_len(
                final(self).palette@.len() as int,
            ),
            final(self).active_effect == old(self).active_effect,
            final(self).scale == old(self).scale,
            final(self).diffusion_algorithm == old(self).diffusion_algorithm,
            final(self).bayer_matrix == old(self).bayer_matrix,
            final(self).halftone_background == old(self).halftone_background,
            final(self).halftone_dot == old(self).halftone_dot,
            final(self).halftone_shape == old(self).halftone_shape,
            final(self).halftone_cell_size == old(self).halftone_cell_size,
            final(self).halftone_max_size == old(self).halftone_max_size,
            final(self).halftone_inverted == old(self).halftone_inverted,
    {
        if self.palette.len() > MIN_PALETTE_COLORS && index < self.palette.len() {
            self.palette.remove(index);
        }
    }
}

impl Settings {
    /// The settings of a fresh session: Floyd–Steinberg at scale one in black and white, Bayer
    /// 4 × 4, and black circles on white in cells of eight pixels.
    pub open spec fn is_default(self) -> bool {
        &&& self.active_effect == ActiveEffect::ErrorDiffusion
        &&& self.scale == 1
        &&& self.palette@ == seq![Rgb8 { r: 0, g: 0, b: 0 }, Rgb8 { r: 255, g: 255, b: 255 }]
        &&& self.diffusion_algorithm == ErrorDiffusionAlgorithm::FloydSteinberg
        &&& self.bayer_matrix == BayerMatrix::Four
        &&& self.halftone_background == (Rgb8 { r: 255, g: 255, b: 255 })
        &&& self.halftone_dot == (Rgb8 { r: 0, g: 0, b: 0 })
        &&& self.halftone_shape == DotShape::Circle
        &&& self.halftone_cell_size == 8
        &&& self.halftone_max_size == 8
        &&& !self.halftone_inverted
    }
}

impl Default for Settings {
    fn default() -> (s: Settings)
        ensures
            s.is_default(),
    {
        Settings {
            active_effect: ActiveEffect::ErrorDiffusion,
            scale: 1,
            palette: vec![Rgb8::black(), Rgb8::white()],
            diffusion_algorithm: ErrorDiffusionAlgorithm::FloydSteinberg,
            bayer_matrix: BayerMatrix::Four,
            halftone_background: Rgb8::white(),
            halftone_dot: Rgb8::black(),
            halftone_shape: DotShape::Circle,
            halftone_cell_size: 8,
            halftone_max_size: 8,
            halftone_inverted: false,
        }
    }
}

/// The engine renders error diffusion and Bayer dithering at the scale that the panel shows
/// when it is a valid scale, from 1 through 16, and at scale 1 otherwise; likewise it uses the
/// panel's palette when it has from 2 through 8 colors, and black and white otherwise.
pub proof fn law_configuration_uses_the_chosen_scale_and_palette(
    settings: Settings,
    config: EffectConfig,
)
    requires
        settings.describes(config),
    ensures
        settings.active_effect == ActiveEffect::ErrorDiffusion ==> (config matches EffectConfig::ErrorDiffusion(c)
            && c.spec_scale()@ == (if 1 <= settings.scale && settings.scale <= 16 {
            settings.scale
        } else {
            1
        }) && c.spec_palette()@ == (if 2 <= settings.palette@.len() && settings.palette@.len()
            <= 8 {
            settings.palette@
        } else {
            seq![Rgb8 { r: 0, g: 0, b: 0 }, Rgb8 { r: 255, g: 255, b: 255 }]
        })),
        settings.active_effect == ActiveEffect::Ordered ==> (config matches EffectConfig::Ordered(c)
            && c.spec_scale()@ == (if 1 <= settings.scale && settings.scale <= 16 {
            settings.scale
        } else {
            1
        }) && c.spec_palette()@ == (if 2 <= settings.palette@.len() && settings.palette@.len()
            <= 8 {
            settings.palette@
        } else {
            seq![Rgb8 { r: 0, g: 0, b: 0 }, Rgb8 { r: 255, g: 255, b: 255 }]
        })),
{
}

} // verus!
