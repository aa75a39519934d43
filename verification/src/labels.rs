//! Names shown by the interface and the checks on files that the user drops or picks.
use vstd::prelude::*;
use vstd::string::StringSliceAdditionalSpecFns;

use crate::config::BayerMatrix;
use crate::settings::ActiveEffect;

verus! {

/// The window title.
pub const WINDOW_TITLE: &'static str = "Dithering";

pub open spec fn spec_effect_name(effect: ActiveEffect) -> Seq<char> {
    match effect {
        ActiveEffect::ErrorDiffusion => "Difusión de error"@,
        ActiveEffect::Ordered => "Bayer"@,
        ActiveEffect::Halftone => "Semitono"@,
    }
}

pub fn effect_name(effect: ActiveEffect) -> (name: &'static str)
    ensures
        name@ == spec_effect_name(effect),
{
    match effect {
        ActiveEffect::ErrorDiffusion => "Difusión de error",
        ActiveEffect::Ordered => "Bayer",
        ActiveEffect::Halftone => "Semitono",
    }
}

pub open spec fn spec_bayer_name(matrix: BayerMatrix) -> Seq<char> {
    match matrix {
        BayerMatrix::Two => "2 × 2"@,
        BayerMatrix::Four => "4 × 4"@,
        BayerMatrix::Eight => "8 × 8"@,
    }
}

pub fn bayer_name(matrix: BayerMatrix) -> (name: &'static str)
    ensures
        name@ == spec_bayer_name(matrix),
{
    match matrix {
        BayerMatrix::Two => "2 × 2",
        BayerMatrix::Four => "4 × 4",
        BayerMatrix::Eight => "8 × 8",
    }
}

/// An ASCII letter in lower case; every other byte unchanged.
pub open spec fn ascii_lower(b: u8) -> u8 {
    if 65 <= b <= 90 {
        (b + 32) as u8
    } else {
        b
    }
}

/// Whether `bytes` spell `word` when ASCII letters are compared without case.
pub open spec fn equals_ignoring_case(bytes: Seq<u8>, word: Seq<u8>) -> bool {
    &&& bytes.len() == word.len()
    &&& forall|i: int| 0 <= i < bytes.len() ==> ascii_lower(#[trigger] bytes[i]) == word[i]
}

/// `png`, `jpg`, `jpeg` and `webp`, as bytes.
pub open spec fn supported_extensions() -> Seq<Seq<u8>> {
    seq![
        seq![0x70u8, 0x6eu8, 0x67u8],
        seq![0x6au8, 0x70u8, 0x67u8],
        seq![0x6au8, 0x70u8, 0x65u8, 0x67u8],
        seq![0x77u8, 0x65u8, 0x62u8, 0x70u8],
    ]
}

fn matches_ignoring_case(bytes: &[u8], word: &[u8]) -> (same: bool)
    ensures
        same == equals_ignoring_case(bytes@, word@),
{
    if bytes.len() != word.len() {
        return false;
    }
    let mut i: usize = 0;
    while i < bytes.len()
        invariant
            bytes@.len() == word@.len(),
            i <= bytes@.len(),
            forall|j: int| 0 <= j < i ==> ascii_lower(#[trigger] bytes@[j]) == word@[j],
        decreases bytes@.len() - i,
    {
        let b = bytes[i];
        let lower = if 65 <= b && b <= 90 {
            b + 32
        } else {
            b
        };
        if lower != word[i] {
            return false;
        }
        i = i + 1;
    }
    true
}

/// Whether a file extension is one of the supported image extensions, in any letter case.
pub fn has_supported_extension(extension: Option<&str>) -> (supported: bool)
    ensures
        supported == (extension matches Some(e) && exists|k: int|
            0 <= k < 4 && equals_ignoring_case(e.spec_bytes(), #[trigger] supported_extensions()[k])),
{
    let e = match extension {
        None => return false,
        Some(e) => e,
    };
    let bytes = e.as_bytes();
    let png: [u8; 3] = [0x70, 0x6e, 0x67];
    let jpg: [u8; 3] = [0x6a, 0x70, 0x67];
    let jpeg: [u8; 4] = [0x6a, 0x70, 0x65, 0x67];
    let webp: [u8; 4] = [0x77, 0x65, 0x62, 0x70];
    assert(png@ =~= supported_extensions()[0]);
    assert(jpg@ =~= supported_extensions()[1]);
    assert(jpeg@ =~= supported_extensions()[2]);
    assert(webp@ =~= supported_extensions()[3]);
    let found = matches_ignoring_case(bytes, png.as_slice()) || matches_ignoring_case(
        bytes,
        jpg.as_slice(),
    ) || matches_ignoring_case(bytes, jpeg.as_slice()) || matches_ignoring_case(
        bytes,
        webp.as_slice(),
    );
    proof {
        if !found {
            assert forall|k: int| 0 <= k < 4 implies !equals_ignoring_case(
                bytes@,
                #[trigger] supported_extensions()[k],
            ) by {
                if k == 0 {
                } else if k == 1 {
                } else if k == 2 {
                } else {
                }
            }
        }
    }
    found
}

/// What a drop of files onto the window amounts to.
#[derive(Clone, Copy, Debug, PartialEq, Eq, Structural)]
pub enum DropDecision {
    Nothing,
    One,
    MissingPath,
    Multiple(usize),
}

/// One dropped file with a local path is opened; a file without a path and several files are
/// refused.
pub fn dropped_selection(count: usize, first_has_path: bool) -> (decision: DropDecision)
    ensures
        count == 0 ==> decision == DropDecision::Nothing,
        count == 1 && first_has_path ==> decision == DropDecision::One,
        count == 1 && !first_has_path ==> decision == DropDecision::MissingPath,
        count > 1 ==> decision == DropDecision::Multiple(count),
{
    if count == 0 {
        DropDecision::Nothing
    } else if count == 1 {
        if first_has_path {
            DropDecision::One
        } else {
            DropDecision::MissingPath
        }
    } else {
        DropDecision::Multiple(count)
    }
}

/// What a keyboard shortcut asks for.
#[derive(Clone, Copy, Debug, PartialEq, Eq, Structural)]
pub enum Shortcut {
    Paste,
    Open,
    Save,
    Fit,
    ActualSize,
}

pub open spec fn spec_shortcut(
    keyboard_taken: bool,
    paste: bool,
    open: bool,
    save: bool,
    fit: bool,
    actual_size: bool,
) -> Option<Shortcut> {
    if keyboard_taken {
        None
    } else if paste {
        Some(Shortcut::Paste)
    } else if open {
        Some(Shortcut::Open)
    } else if save {
        Some(Shortcut::Save)
    } else if fit {
        Some(Shortcut::Fit)
    } else if actual_size {
        Some(Shortcut::ActualSize)
    } else {
        None
    }
}

/// The one shortcut acted on in a frame: none while a text field takes the keyboard, and
/// otherwise the first pressed of paste, open, save, fit and actual size.
pub fn shortcut(
    keyboard_taken: bool,
    paste: bool,
    open: bool,
    save: bool,
    fit: bool,
    actual_size: bool,
) -> (action: Option<Shortcut>)
    ensures
        action == spec_shortcut(keyboard_taken, paste, open, save, fit, actual_size),
{
    if keyboard_taken {
        None
    } else if paste {
        Some(Shortcut::Paste)
    } else if open {
        Some(Shortcut::Open)
    } else if save {
        Some(Shortcut::Save)
    } else if fit {
        Some(Shortcut::Fit)
    } else if actual_size {
        Some(Shortcut::ActualSize)
    } else {
        None
    }
}

} // verus!
