use termtint::color::{ColorFormat, InvalidColor, RGB};
use termtint::config::{
    detect_format, parse_auto, parse_config, parse_config_source, parse_simple_color,
    parse_toml, plan_from_entries, BackgroundPlan, ColorPlan, ConfigError, ConfigFormat,
    ConfigSource, TabPlan,
};

#[test]
fn test_detect_format_simple_color_with_hash() {
    assert_eq!(detect_format("#ff5500"), ConfigFormat::SimpleColor);
}

#[test]
fn test_detect_format_simple_color_without_hash() {
    assert_eq!(detect_format("ff5500"), ConfigFormat::SimpleColor);
}

#[test]
fn test_detect_format_auto() {
    assert_eq!(detect_format("auto"), ConfigFormat::Auto);
    assert_eq!(detect_format("  auto  "), ConfigFormat::Auto);
}

#[test]
fn test_detect_format_toml() {
    assert_eq!(detect_format("tab = \"#ff5500\""), ConfigFormat::Toml);
}

#[test]
fn test_detect_format_named_color() {
    assert_eq!(detect_format("red"), ConfigFormat::SimpleColor);
    assert_eq!(detect_format("tomato"), ConfigFormat::SimpleColor);
}

#[test]
fn detect_format_edge_cases() {
    assert_eq!(detect_format(""), ConfigFormat::SimpleColor);
    assert_eq!(detect_format("auto\n"), ConfigFormat::Auto);
    assert_eq!(detect_format("\t auto \r\n"), ConfigFormat::Auto);
    assert_eq!(detect_format("Auto"), ConfigFormat::SimpleColor);
    assert_eq!(detect_format("auto = 1"), ConfigFormat::Toml);
    assert_eq!(detect_format("="), ConfigFormat::Toml);
    assert_eq!(detect_format("autos"), ConfigFormat::SimpleColor);
}

#[test]
fn test_rgb_display() {
    let rgb = RGB { r: 255, g: 85, b: 0 };
    assert_eq!(rgb.to_hex_string(), "#ff5500");

    let rgb = RGB { r: 0, g: 17, b: 255 };
    assert_eq!(rgb.to_hex_string(), "#0011ff");
}

#[test]
fn test_rgb_format_as_hex() {
    let rgb = RGB { r: 255, g: 85, b: 0 };
    assert_eq!(rgb.format_as(ColorFormat::Hex), Some("#ff5500".to_string()));
}

#[test]
fn test_rgb_format_as_rgb() {
    let rgb = RGB { r: 255, g: 85, b: 0 };
    assert_eq!(rgb.format_as(ColorFormat::Rgb), Some("rgb(255, 85, 0)".to_string()));
}

#[test]
fn rgb_format_as_hsl_is_left_to_the_caller() {
    let rgb = RGB { r: 255, g: 85, b: 0 };
    assert_eq!(rgb.format_as(ColorFormat::Hsl), None);
}

#[test]
fn rgb_color_block() {
    let rgb = RGB { r: 255, g: 85, b: 0 };
    assert_eq!(rgb.as_color_block(), "\x1b[48;2;255;85;0m  \x1b[0m");
    let rgb = RGB { r: 0, g: 9, b: 100 };
    assert_eq!(rgb.as_color_block(), "\x1b[48;2;0;9;100m  \x1b[0m");
}

#[test]
fn color_format_names() {
    assert_eq!(ColorFormat::from_name("hex"), Some(ColorFormat::Hex));
    assert_eq!(ColorFormat::from_name("hsl"), Some(ColorFormat::Hsl));
    assert_eq!(ColorFormat::from_name("rgb"), Some(ColorFormat::Rgb));
    assert_eq!(ColorFormat::from_name("HSL"), Some(ColorFormat::Hsl));
    assert_eq!(ColorFormat::from_name("Rgb"), Some(ColorFormat::Rgb));
    assert_eq!(ColorFormat::from_name("invalid"), None);
    assert_eq!(ColorFormat::from_name(""), None);
    assert_eq!(ColorFormat::from_lowercase_name("HSL"), None);
    assert_eq!(ColorFormat::from_lowercase_name("hsl"), Some(ColorFormat::Hsl));
    assert_eq!(ColorFormat::default(), ColorFormat::Hex);
}

#[test]
fn test_parse_simple_color_config() {
    let config = parse_simple_color("#ff5500").unwrap();
    assert_eq!(config.tab, TabPlan::Fixed(RGB { r: 255, g: 85, b: 0 }));
    assert_eq!(config.background, BackgroundPlan::Derived);
}

#[test]
fn test_parse_toml_with_tab_only() {
    let config = parse_toml("tab = \"#00ff00\"").unwrap();
    assert_eq!(config.tab, TabPlan::Fixed(RGB { r: 0, g: 255, b: 0 }));
    assert_eq!(config.background, BackgroundPlan::Derived);
}

#[test]
fn test_parse_toml_with_background() {
    let config = parse_toml("tab = \"#00ff00\"\nbackground = \"#001100\"").unwrap();
    assert_eq!(config.tab, TabPlan::Fixed(RGB { r: 0, g: 255, b: 0 }));
    assert_eq!(config.background, BackgroundPlan::Fixed(RGB { r: 0, g: 17, b: 0 }));
}

#[test]
fn test_parse_toml_missing_tab() {
    let result = parse_toml("background = \"#001100\"");
    assert!(result.is_err());
    assert_eq!(result, Err(ConfigError::MissingRequiredKey));
}

#[test]
fn test_parse_toml_with_hsl() {
    let config = parse_toml("tab = \"hsl(0, 100%, 50%)\"").unwrap();
    assert_eq!(config.tab, TabPlan::Fixed(RGB { r: 255, g: 0, b: 0 }));
    assert_eq!(config.background, BackgroundPlan::Derived);
}

#[test]
fn test_parse_toml_with_named_color() {
    let config = parse_toml("tab = \"tomato\"").unwrap();
    assert_eq!(config.tab, TabPlan::Fixed(RGB { r: 255, g: 99, b: 71 }));
    assert_eq!(config.background, BackgroundPlan::Derived);
}

#[test]
fn parse_toml_errors() {
    match parse_toml("tab = #ff5500") {
        Err(ConfigError::InvalidStructure(reason)) => assert!(!reason.is_empty()),
        other => panic!("unexpected {:?}", other),
    }
    assert_eq!(parse_toml("tab = 5"), Err(ConfigError::MissingRequiredKey));
    match parse_toml("tab = \"nocolor\"") {
        Err(ConfigError::InvalidColor(e)) => assert_eq!(e.text, "nocolor"),
        other => panic!("unexpected {:?}", other),
    }
    match parse_toml("tab = \"red\"\nbackground = \"#zz\"") {
        Err(ConfigError::InvalidColor(e)) => assert_eq!(e.text, "#zz"),
        other => panic!("unexpected {:?}", other),
    }
    let plan = parse_toml("tab = \"red\"\nbackground = 7").unwrap();
    assert_eq!(plan.background, BackgroundPlan::Derived);
}

#[test]
fn plan_from_entries_cases() {
    assert_eq!(plan_from_entries(None, None), Err(ConfigError::MissingRequiredKey));
    assert_eq!(plan_from_entries(None, Some("#000")), Err(ConfigError::MissingRequiredKey));
    assert_eq!(
        plan_from_entries(Some("#010203"), None),
        Ok(ColorPlan {
            tab: TabPlan::Fixed(RGB { r: 1, g: 2, b: 3 }),
            background: BackgroundPlan::Derived
        })
    );
    assert_eq!(
        plan_from_entries(Some("#010203"), Some(" 0a0b0c ")),
        Ok(ColorPlan {
            tab: TabPlan::Fixed(RGB { r: 1, g: 2, b: 3 }),
            background: BackgroundPlan::Fixed(RGB { r: 10, g: 11, b: 12 })
        })
    );
}

#[test]
fn test_parse_config_hex_file() {
    let config = parse_config("/project/.termtint", &Ok("#ff5500".to_string())).unwrap();
    assert_eq!(config.tab, TabPlan::Fixed(RGB { r: 255, g: 85, b: 0 }));
}

#[test]
fn test_parse_config_toml_file() {
    let config = parse_config("/project/.termtint", &Ok("tab = \"#00ff00\"".to_string())).unwrap();
    assert_eq!(config.tab, TabPlan::Fixed(RGB { r: 0, g: 255, b: 0 }));
}

#[test]
fn test_parse_config_auto_file() {
    let config = parse_config("/project/.termtint", &Ok("auto".to_string())).unwrap();
    assert_eq!(config.tab, TabPlan::Auto("/project/.termtint".to_string()));
    assert_eq!(config.background, BackgroundPlan::Derived);
}

#[test]
fn parse_config_unreadable_file() {
    let result = parse_config("/project/.termtint", &Err("permission denied".to_string()));
    assert_eq!(
        result,
        Err(ConfigError::Io {
            path: "/project/.termtint".to_string(),
            reason: "permission denied".to_string()
        })
    );
    assert_eq!(result.unwrap_err().message(), "Failed to read config file: permission denied");
}

#[test]
fn config_error_messages() {
    assert_eq!(ConfigError::MissingRequiredKey.message(), "Missing 'tab' key in TOML config");
    assert_eq!(
        ConfigError::InvalidStructure("bad".to_string()).message(),
        "Failed to parse TOML: bad"
    );
    let e = InvalidColor { text: "#gg".to_string(), reason: "invalid hex format".to_string() };
    assert_eq!(e.message(), "Invalid color '#gg': invalid hex format");
    assert_eq!(
        ConfigError::InvalidColor(e).message(),
        "Invalid color '#gg': invalid hex format"
    );
}

#[test]
fn test_parse_config_source_termtint() {
    let source = ConfigSource::Termtint("/project/.termtint".to_string());
    let config = parse_config_source(&source, &Ok("#ff5500".to_string())).unwrap();

    assert_eq!(config.tab, TabPlan::Fixed(RGB { r: 255, g: 85, b: 0 }));
    assert_eq!(config.background, BackgroundPlan::Derived);
}

#[test]
fn parse_config_source_trigger_file_plan() {
    let source = ConfigSource::TriggerFile("/projects/one".to_string());
    let config = parse_config_source(&source, &Err(String::new())).unwrap();

    assert_eq!(config.tab, TabPlan::Auto("/projects/one".to_string()));
    assert_eq!(config.background, BackgroundPlan::Derived);
}

#[test]
fn parse_config_source_trigger_path() {
    let source = ConfigSource::TriggerPath("/projects/two".to_string());
    let config = parse_config_source(&source, &Ok("#ff5500".to_string())).unwrap();
    assert_eq!(config, parse_auto("/projects/two"));
}

#[test]
fn key_value_literal_outside_ascii() {
    match parse_toml("tab = \"hsl(éab,0,0)\"") {
        Err(ConfigError::InvalidColor(e)) => {
            assert_eq!(e.text, "hsl(éab,0,0)");
            assert_eq!(e.reason, "character outside ASCII");
        }
        other => panic!("unexpected {:?}", other),
    }
    match parse_toml("tab = \"red\"\nbackground = \"ürad\"") {
        Err(ConfigError::InvalidColor(e)) => assert_eq!(e.text, "ürad"),
        other => panic!("unexpected {:?}", other),
    }
    match parse_simple_color("hsl(éab,0,0)\n") {
        Err(e) => assert_eq!(
            e.message(),
            "Invalid color 'hsl(éab,0,0)': character outside ASCII"
        ),
        other => panic!("unexpected {:?}", other),
    }
}
