//! The validated color palette of error diffusion and Bayer dithering.
use vstd::prelude::*;

use crate::raster::Rgb8;

verus! {

pub const MIN_PALETTE_COLORS: usize = 2;

pub const MAX_PALETTE_COLORS: usize = 8;

/// From 2 through 8 opaque colors, repeats allowed, in the order the user gave them.
#[derive(Debug, PartialEq, Eq)]
pub struct Palette {
    colors: Vec<Rgb8>,
}

/// Why a list of colors is not a palette.
#[derive(Clone, Debug, PartialEq, Eq, Structural)]
pub enum PaletteError {
    TooFewColors { actual: usize, minimum: usize },
    TooManyColors { actual: usize, maximum: usize },
}

impl View for Palette {
    type V = Seq<Rgb8>;

    closed spec fn view(&self) -> Seq<Rgb8> {
        self.colors@
    }
}

/// Whether a number of colors is a valid palette size.
pub open spec fn valid_palette_len(len: int) -> bool {
    MIN_PALETTE_COLORS <= len <= MAX_PALETTE_COLORS
}

impl Clone for Palette {
    fn clone(&self) -> (copy: Palette)
        ensures
            copy@ == self@,
    {
        proof {
            use_type_invariant(self);
        }
        Palette { colors: self.colors.clone() }
    }
}

impl Palette {
    #[verifier::type_invariant]
    spec fn inv(self) -> bool {
        valid_palette_len(self.colors@.len() as int)
    }

    pub fn new(colors: Vec<Rgb8>) -> (result: Result<Palette, PaletteError>)
        ensures
            colors@.len() < MIN_PALETTE_COLORS ==> result == Err::<Palette, PaletteError>(
                PaletteError::TooFewColors { actual: colors@.len() as usize, minimum: MIN_PALETTE_COLORS },
            ),
            colors@.len() > MAX_PALETTE_COLORS ==> result == Err::<Palette, PaletteError>(
                PaletteError::TooManyColors { actual: colors@.len() as usize, maximum: MAX_PALETTE_COLORS },
            ),
            valid_palette_len(colors@.len() as int) ==> (result matches Ok(p) && p@ == colors@),
    {
        if colors.len() < MIN_PALETTE_COLORS {
            Err(PaletteError::TooFewColors { actual: colors.len(), minimum: MIN_PALETTE_COLORS })
        } else if colors.len() > MAX_PALETTE_COLORS {
            Err(PaletteError::TooManyColors { actual: colors.len(), maximum: MAX_PALETTE_COLORS })
        } else {
            Ok(Palette { colors })
        }
    }

    pub fn black_and_white() -> (p: Palette)
        ensures
            p@ == seq![Rgb8 { r: 0, g: 0, b: 0 }, Rgb8 { r: 255, g: 255, b: 255 }],
    {
        let colors = vec![Rgb8::black(), Rgb8::white()];
        Palette { colors }
    }

    pub fn colors(&self) -> (colors: &[Rgb8])
        ensures
            colors@ == self@,
            valid_palette_len(colors@.len() as int),
    {
        proof {
            use_type_invariant(self);
        }
        self.colors.as_slice()
    }
}

impl Default for Palette {
    fn default() -> (p: Palette)
        ensures
            p@ == seq![Rgb8 { r: 0, g: 0, b: 0 }, Rgb8 { r: 255, g: 255, b: 255 }],
    {
        Palette::black_and_white()
    }
}

} // verus!
