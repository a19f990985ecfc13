use std::hash::{Hash, Hasher};
use termtint::color::{parse_color, ColorConfig, RGB};
use termtint::config::{
    parse_config, parse_config_source, BackgroundPlan, ColorPlan, ConfigSource, TabPlan,
};
use termtint::iterm::apply_colors;
use termtint::seed::{generate_from_path, generate_random_color, AutoSeed, HUE_STEPS, SATURATION_STEPS};

fn derive(tab: RGB, lightness: f32, saturation: f32) -> RGB {
    let lab = oklab::srgb_to_oklab(oklab::Rgb { r: tab.r, g: tab.g, b: tab.b });
    let factor = saturation.clamp(0.0, 1.0);
    let out = oklab::oklab_to_srgb(oklab::Oklab {
        l: lightness.clamp(0.0, 1.0),
        a: lab.a * factor,
        b: lab.b * factor,
    });
    RGB { r: out.r, g: out.g, b: out.b }
}

struct Ranges {
    hue_min: f32,
    hue_max: f32,
    saturation_min: f32,
    saturation_max: f32,
    lightness: f32,
}

fn default_ranges() -> Ranges {
    Ranges { hue_min: 0.0, hue_max: 360.0, saturation_min: 0.7, saturation_max: 0.9, lightness: 0.55 }
}

fn color_in(parts: AutoSeed, ranges: &Ranges) -> RGB {
    let hue_range = ranges.hue_max - ranges.hue_min;
    let hue = ranges.hue_min + (parts.hue_step as f32 / HUE_STEPS as f32) * hue_range;
    let saturation_range = ranges.saturation_max - ranges.saturation_min;
    let saturation = ranges.saturation_min
        + parts.saturation_step as f32 / SATURATION_STEPS as f32 * saturation_range;
    let color = csscolorparser::Color::from_hsla(hue, saturation, ranges.lightness, 1.0);
    let [r, g, b, _a] = color.to_rgba8();
    RGB { r, g, b }
}

fn color_of(parts: AutoSeed) -> RGB {
    color_in(parts, &default_ranges())
}

fn hsl_of(color: RGB) -> [f32; 4] {
    let color_str = color.to_hex_string();
    csscolorparser::parse(&color_str).unwrap().to_hsla()
}

fn complete(plan: &ColorPlan, lightness: f32, saturation: f32) -> ColorConfig {
    let tab = match &plan.tab {
        TabPlan::Fixed(c) => *c,
        TabPlan::Auto(path) => color_of(generate_from_path(path)),
    };
    let background = match plan.background {
        BackgroundPlan::Fixed(c) => c,
        BackgroundPlan::Derived => derive(tab, lightness, saturation),
    };
    ColorConfig { tab, background }
}

#[test]
fn hex_literal_round_trip() {
    let rgb = parse_color("#ff5500").unwrap();
    assert_eq!(rgb.to_hex_string(), "#ff5500");
}

#[test]
fn hex_round_trip_of_many_colors() {
    for step in 0..=255u32 {
        let rgb = RGB { r: step as u8, g: (step * 7 % 256) as u8, b: (255 - step) as u8 };
        assert_eq!(parse_color(&rgb.to_hex_string()), Ok(rgb));
        assert_eq!(parse_color(&rgb.to_rgb_string()), Ok(rgb));
    }
}

#[test]
fn marker_with_a_hex_literal() {
    let plan = parse_config("/work/.termtint", &Ok("#ff5500".to_string())).unwrap();
    assert_eq!(plan.tab, TabPlan::Fixed(RGB { r: 255, g: 85, b: 0 }));
    assert_eq!(plan.background, BackgroundPlan::Derived);

    let colors = complete(&plan, 0.10, 1.0);
    assert_eq!(colors.tab.to_hex_string(), "#ff5500");
    assert_eq!(colors.background, RGB { r: 48, g: 0, b: 0 });
    assert_eq!(
        apply_colors(&colors),
        "\x1b]6;1;bg;red;brightness;255\x07\x1b]6;1;bg;green;brightness;85\x07\x1b]6;1;bg;blue;brightness;0\x07\x1b]11;rgb:30/00/00\x07"
    );
}

#[test]
fn test_parse_config_source_uses_user_config() {
    let source = ConfigSource::Termtint("/work/.termtint".to_string());
    let plan = parse_config_source(&source, &Ok("#ff5500".to_string())).unwrap();
    let config = complete(&plan, 0.20, 1.0);

    assert_eq!(config.tab, RGB { r: 255, g: 85, b: 0 });
    assert_eq!(config.background, RGB { r: 84, g: 0, b: 0 });
}

#[test]
fn marker_with_auto() {
    let one = parse_config("/work/one/.termtint", &Ok("auto".to_string())).unwrap();
    let two = parse_config("/work/two/.termtint", &Ok("auto\n".to_string())).unwrap();
    assert_eq!(one.tab, TabPlan::Auto("/work/one/.termtint".to_string()));
    assert_eq!(two.tab, TabPlan::Auto("/work/two/.termtint".to_string()));

    let first = complete(&one, 0.18, 1.0);
    let again = complete(&one, 0.18, 1.0);
    let other = complete(&two, 0.18, 1.0);
    assert_eq!(first, again);
    assert_ne!(first.tab, other.tab);
}

#[test]
fn structured_marker_without_background() {
    let plan = parse_config("/work/.termtint", &Ok("tab = \"#00ff00\"".to_string())).unwrap();
    assert_eq!(plan.tab, TabPlan::Fixed(RGB { r: 0, g: 255, b: 0 }));
    assert_eq!(plan.background, BackgroundPlan::Derived);

    let colors = complete(&plan, 0.10, 1.0);
    assert_ne!(colors.background, colors.tab);
    assert_eq!(colors.background, RGB { r: 0, g: 13, b: 0 });
}

#[test]
fn test_parse_auto_deterministic() {
    let parts1 = generate_from_path("/tmp/project/.termtint");
    let parts2 = generate_from_path("/tmp/project/.termtint");
    assert_eq!(parts1, parts2);
}

#[test]
fn test_parse_config_source_trigger_file_deterministic() {
    let source = ConfigSource::TriggerFile("/tmp/project".to_string());
    let config1 = complete(&parse_config_source(&source, &Err(String::new())).unwrap(), 0.18, 1.0);
    let config2 = complete(&parse_config_source(&source, &Err(String::new())).unwrap(), 0.18, 1.0);

    assert_eq!(config1.tab, config2.tab);
    assert_eq!(config1.background, config2.background);
}

#[test]
fn test_parse_config_source_trigger_file_different_dirs() {
    let source1 = ConfigSource::TriggerFile("/tmp/project-one".to_string());
    let source2 = ConfigSource::TriggerFile("/tmp/project-two".to_string());

    let config1 = complete(&parse_config_source(&source1, &Err(String::new())).unwrap(), 0.18, 1.0);
    let config2 = complete(&parse_config_source(&source2, &Err(String::new())).unwrap(), 0.18, 1.0);

    assert_ne!(config1.tab, config2.tab);
}

#[test]
fn path_seed_is_the_hash_of_the_path() {
    for path in ["/", "/a", "/a/b", "/a//b/", "relative/dir", ""] {
        let mut hasher = std::collections::hash_map::DefaultHasher::new();
        std::path::Path::new(path).hash(&mut hasher);
        let seed = hasher.finish();
        assert_eq!(generate_from_path(path), AutoSeed::from_seed(seed), "{:?}", path);
    }
    assert_eq!(generate_from_path("/a/b"), generate_from_path("/a//b/"));
    assert_ne!(generate_from_path("/a/b"), generate_from_path("/a/c"));
}

#[test]
fn seed_parts() {
    assert_eq!(AutoSeed::from_seed(0), AutoSeed { hue_step: 0, saturation_step: 0 });
    assert_eq!(AutoSeed::from_seed(0xFFFF), AutoSeed { hue_step: 0xFFFF, saturation_step: 0 });
    assert_eq!(AutoSeed::from_seed(0x12_3456), AutoSeed { hue_step: 0x3456, saturation_step: 0x12 });
    assert_eq!(
        AutoSeed::from_seed(0xDEAD_BEEF_01AB_CDEF),
        AutoSeed { hue_step: 0xCDEF, saturation_step: 0xAB }
    );
    assert_eq!(AutoSeed::from_seed(u64::MAX), AutoSeed { hue_step: 0xFFFF, saturation_step: 0xFF });
    assert_eq!(HUE_STEPS, 65535);
    assert_eq!(SATURATION_STEPS, 255);
}

#[test]
fn test_generate_random_color_produces_different_colors() {
    let colors: Vec<AutoSeed> = (0..10).map(|_| generate_random_color()).collect();

    let first_color = colors[0];
    let has_different_color = colors.iter().any(|c| *c != first_color);
    assert!(
        has_different_color,
        "Should generate different random colors, but all were {:?}",
        first_color
    );
}

#[test]
fn test_parse_config_source_trigger_file() {
    let source = ConfigSource::TriggerFile("/tmp/project".to_string());
    let config = complete(&parse_config_source(&source, &Err(String::new())).unwrap(), 0.18, 1.0);

    let max_channel = config.tab.r.max(config.tab.g).max(config.tab.b);
    assert!(max_channel >= 128, "Generated color should be vibrant");
}

#[test]
fn test_parse_config_auto_file_is_vibrant() {
    let plan = parse_config("/tmp/project/.termtint", &Ok("auto".to_string())).unwrap();
    let config = complete(&plan, 0.18, 1.0);
    let max_channel = config.tab.r.max(config.tab.g).max(config.tab.b);
    assert!(
        max_channel >= 128,
        "Generated color should be vibrant with at least one bright channel"
    );
}

#[test]
fn test_parse_auto_produces_vibrant_colors() {
    let ranges = default_ranges();
    let test_paths = vec![
        "/tmp/project1/.termtint",
        "/tmp/project2/.termtint",
        "/tmp/project3/.termtint",
        "/tmp/deeply/nested/path/.termtint",
    ];

    for path in test_paths {
        let rgb = color_in(generate_from_path(path), &ranges);
        let [_hue, saturation, lightness, _alpha] = hsl_of(rgb);

        assert!(
            saturation >= 0.7,
            "Path {:?} generated color {} with saturation {}, expected >= 0.7",
            path,
            rgb.to_hex_string(),
            saturation
        );
        assert!(
            saturation <= 0.9,
            "Path {:?} generated color {} with saturation {}, expected <= 0.9",
            path,
            rgb.to_hex_string(),
            saturation
        );
        assert!(
            (lightness - ranges.lightness).abs() < 0.02,
            "Path {:?} generated color {} with lightness {}, expected ~{}",
            path,
            rgb.to_hex_string(),
            lightness,
            ranges.lightness
        );
    }
}

#[test]
fn test_generate_random_color() {
    let ranges = default_ranges();
    let color = color_in(generate_random_color(), &ranges);

    let [_hue, saturation, lightness, _alpha] = hsl_of(color);

    assert!(
        saturation >= ranges.saturation_min - 0.05,
        "Saturation {} should be >= {}",
        saturation,
        ranges.saturation_min
    );
    assert!(
        saturation <= ranges.saturation_max + 0.05,
        "Saturation {} should be <= {}",
        saturation,
        ranges.saturation_max
    );
    assert!(
        (lightness - ranges.lightness).abs() < 0.02,
        "Lightness {} should be approximately {}",
        lightness,
        ranges.lightness
    );
}

#[test]
fn test_generate_random_color_respects_custom_ranges() {
    let ranges = Ranges {
        hue_min: 120.0,
        hue_max: 180.0,
        saturation_min: 0.8,
        saturation_max: 0.9,
        lightness: 0.6,
    };

    let color = color_in(generate_random_color(), &ranges);

    let [hue, saturation, lightness, _alpha] = hsl_of(color);

    assert!(
        hue >= ranges.hue_min - 5.0 && hue <= ranges.hue_max + 5.0,
        "Hue {} should be within {} to {}",
        hue,
        ranges.hue_min,
        ranges.hue_max
    );
    assert!(
        saturation >= ranges.saturation_min - 0.05,
        "Saturation {} should be >= {}",
        saturation,
        ranges.saturation_min
    );
    assert!(
        (lightness - ranges.lightness).abs() < 0.02,
        "Lightness {} should be approximately {}",
        lightness,
        ranges.lightness
    );
}
