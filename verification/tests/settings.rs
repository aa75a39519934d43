use dithering::labels::{bayer_name, effect_name, has_supported_extension, dropped_selection, DropDecision, WINDOW_TITLE};
use dithering::settings::{farthest_pair, midpoint, rgb_distance};
use dithering::{ActiveEffect, BayerMatrix, EffectConfig, ErrorDiffusionAlgorithm, Rgb8, Settings};

#[test]
fn defaults_match_the_product_contract() {
    let settings = Settings::default();
    assert_eq!(settings.active_effect, ActiveEffect::ErrorDiffusion);
    assert_eq!(settings.diffusion_algorithm, ErrorDiffusionAlgorithm::FloydSteinberg);
    assert_eq!(settings.scale, 1);
    assert_eq!(settings.palette, vec![Rgb8::black(), Rgb8::white()]);
    assert!(matches!(settings.effect_config(), EffectConfig::ErrorDiffusion(_)));
}

#[test]
fn adds_the_midpoint_of_the_most_distant_pair() {
    let mut settings = Settings {
        palette: vec![
            Rgb8::new(0, 0, 0),
            Rgb8::new(10, 10, 10),
            Rgb8::new(255, 255, 255),
        ],
        ..Settings::default()
    };
    settings.add_palette_color();
    assert_eq!(settings.palette[2], Rgb8::new(127, 127, 127));
}

#[test]
fn never_removes_below_two_or_adds_above_eight() {
    let mut settings = Settings::default();
    settings.remove_palette_color(0);
    assert_eq!(settings.palette.len(), 2);
    for _ in 0..10 {
        settings.add_palette_color();
    }
    assert_eq!(settings.palette.len(), 8);
}

#[test]
fn every_effect_builds_a_valid_engine_configuration() {
    let mut settings = Settings {
        active_effect: ActiveEffect::Ordered,
        ..Settings::default()
    };
    assert!(matches!(settings.effect_config(), EffectConfig::Ordered(_)));
    settings.active_effect = ActiveEffect::Halftone;
    assert!(matches!(settings.effect_config(), EffectConfig::Halftone(_)));
}

#[test]
fn window_has_a_temporary_title() {
    assert!(!WINDOW_TITLE.is_empty());
}

#[test]
fn invalid_values_fall_back_to_defaults() {
    let settings = Settings {
        scale: 40,
        palette: vec![Rgb8::new(1, 2, 3)],
        ..Settings::default()
    };
    let EffectConfig::ErrorDiffusion(config) = settings.effect_config() else {
        panic!("error diffusion is active");
    };
    assert_eq!(config.scale().get(), 1);
    assert_eq!(config.palette().colors(), &[Rgb8::black(), Rgb8::white()]);
}

#[test]
fn halftone_dot_size_is_capped_at_the_cell_size() {
    let settings = Settings {
        active_effect: ActiveEffect::Halftone,
        halftone_cell_size: 4,
        halftone_max_size: 20,
        halftone_inverted: true,
        ..Settings::default()
    };
    let EffectConfig::Halftone(config) = settings.effect_config() else {
        panic!("halftone is active");
    };
    assert_eq!((config.cell_size(), config.max_size()), (4, 4));
    assert!(config.inverted());

    let broken = Settings {
        active_effect: ActiveEffect::Halftone,
        halftone_cell_size: 1,
        halftone_inverted: true,
        ..Settings::default()
    };
    let EffectConfig::Halftone(config) = broken.effect_config() else {
        panic!("halftone is active");
    };
    assert_eq!((config.cell_size(), config.max_size()), (8, 8));
    assert!(!config.inverted());
}

#[test]
fn remove_keeps_the_order_of_the_other_colors() {
    let mut settings = Settings {
        palette: vec![Rgb8::new(1, 1, 1), Rgb8::new(2, 2, 2), Rgb8::new(3, 3, 3)],
        ..Settings::default()
    };
    settings.remove_palette_color(1);
    assert_eq!(settings.palette, vec![Rgb8::new(1, 1, 1), Rgb8::new(3, 3, 3)]);
    settings.remove_palette_color(5);
    assert_eq!(settings.palette.len(), 2);
}

#[test]
fn the_first_of_equally_distant_pairs_wins() {
    let colors = [Rgb8::new(0, 0, 0), Rgb8::new(100, 0, 0), Rgb8::new(200, 0, 0), Rgb8::new(0, 0, 200)];
    assert_eq!(farthest_pair(&colors), (2, 3));
    let same = [Rgb8::new(5, 5, 5), Rgb8::new(5, 5, 5), Rgb8::new(5, 5, 5)];
    assert_eq!(farthest_pair(&same), (0, 1));
}

#[test]
fn distance_and_midpoint_formulas() {
    assert_eq!(rgb_distance(Rgb8::black(), Rgb8::white()), 195_075);
    assert_eq!(rgb_distance(Rgb8::new(1, 2, 3), Rgb8::new(4, 6, 3)), 25);
    assert_eq!(midpoint(255, 254), 254);
    assert_eq!(midpoint(0, 255), 127);
}

#[test]
fn names_and_extensions() {
    assert_eq!(effect_name(ActiveEffect::ErrorDiffusion), "Difusión de error");
    assert_eq!(effect_name(ActiveEffect::Halftone), "Semitono");
    assert_eq!(bayer_name(BayerMatrix::Eight), "8 × 8");
    assert!(has_supported_extension(Some("PNG")));
    assert!(has_supported_extension(Some("jpeg")));
    assert!(has_supported_extension(Some("WebP")));
    assert!(!has_supported_extension(Some("gif")));
    assert!(!has_supported_extension(Some("pngx")));
    assert!(!has_supported_extension(None));
}

#[test]
fn drop_accepts_one_local_file_and_rejects_multiple_files() {
    assert_eq!(dropped_selection(1, true), DropDecision::One);
    assert_eq!(dropped_selection(2, true), DropDecision::Multiple(2));
    assert_eq!(dropped_selection(1, false), DropDecision::MissingPath);
    assert_eq!(dropped_selection(0, false), DropDecision::Nothing);
}
