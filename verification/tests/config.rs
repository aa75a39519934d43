use dithering::config::MAX_HALFTONE_CELL_SIZE;
use dithering::{
    ConfigError, DotShape, EffectConfig, EffectKind, ErrorDiffusionAlgorithm, HalftoneConfig,
    OrderedConfig, BayerMatrix, Palette, PaletteError, Rgb8, MAX_PALETTE_COLORS,
};

#[test]
fn default_effect_matches_the_product_contract() {
    let EffectConfig::ErrorDiffusion(config) = EffectConfig::default() else {
        panic!("default effect must be error diffusion");
    };

    assert_eq!(config.algorithm(), ErrorDiffusionAlgorithm::FloydSteinberg);
    assert_eq!(config.scale().get(), 1);
    assert_eq!(config.palette().colors(), &[Rgb8::black(), Rgb8::white()]);
}

#[test]
fn validates_halftone_cell_size() {
    assert_eq!(
        HalftoneConfig::new(Rgb8::white(), Rgb8::black(), DotShape::Circle, 1, 1, false),
        Err(ConfigError::InvalidCellSize { value: 1 })
    );
    assert!(HalftoneConfig::new(
        Rgb8::white(),
        Rgb8::black(),
        DotShape::Circle,
        MAX_HALFTONE_CELL_SIZE,
        MAX_HALFTONE_CELL_SIZE,
        false,
    )
    .is_ok());
}

#[test]
fn validates_halftone_maximum_dot_size() {
    assert_eq!(
        HalftoneConfig::new(Rgb8::white(), Rgb8::black(), DotShape::Square, 8, 9, false),
        Err(ConfigError::InvalidMaximumDotSize {
            value: 9,
            cell_size: 8,
        })
    );
}

#[test]
fn accepts_two_through_eight_colors_and_repeated_colors() {
    assert!(Palette::new(vec![Rgb8::black(); 2]).is_ok());
    assert!(Palette::new(vec![Rgb8::white(); MAX_PALETTE_COLORS]).is_ok());
}

#[test]
fn rejects_palette_sizes_outside_the_range() {
    assert_eq!(
        Palette::new(vec![Rgb8::black()]),
        Err(PaletteError::TooFewColors {
            actual: 1,
            minimum: 2,
        })
    );
    assert!(Palette::new(vec![Rgb8::black(); MAX_PALETTE_COLORS + 1]).is_err());
}

#[test]
fn too_many_colors_reports_the_maximum() {
    assert_eq!(
        Palette::new(vec![Rgb8::black(); 9]),
        Err(PaletteError::TooManyColors { actual: 9, maximum: 8 })
    );
}

#[test]
fn halftone_accepts_a_dot_as_large_as_the_cell_and_keeps_its_fields() {
    let config = HalftoneConfig::new(Rgb8::new(1, 2, 3), Rgb8::new(4, 5, 6), DotShape::Square, 2, 2, true)
        .expect("valid settings");
    assert_eq!(config.background(), Rgb8::new(1, 2, 3));
    assert_eq!(config.dot(), Rgb8::new(4, 5, 6));
    assert_eq!(config.shape(), DotShape::Square);
    assert_eq!(config.cell_size(), 2);
    assert_eq!(config.max_size(), 2);
    assert!(config.inverted());
    assert_eq!(
        HalftoneConfig::new(Rgb8::white(), Rgb8::black(), DotShape::Circle, 8, 0, false),
        Err(ConfigError::InvalidMaximumDotSize { value: 0, cell_size: 8 })
    );
    assert_eq!(
        HalftoneConfig::new(Rgb8::white(), Rgb8::black(), DotShape::Circle, 129, 1, false),
        Err(ConfigError::InvalidCellSize { value: 129 })
    );
}

#[test]
fn default_halftone_and_ordered_settings() {
    let halftone = HalftoneConfig::default();
    assert_eq!((halftone.cell_size(), halftone.max_size()), (8, 8));
    assert_eq!(halftone.shape(), DotShape::Circle);
    let ordered = OrderedConfig::default();
    assert_eq!(ordered.matrix(), BayerMatrix::Four);
    assert_eq!(EffectConfig::Ordered(ordered).kind(), EffectKind::Ordered);
    assert_eq!(EffectConfig::Halftone(halftone).kind(), EffectKind::Halftone);
}
