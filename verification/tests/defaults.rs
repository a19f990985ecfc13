use termtint::user_config::{
    default_config_toml, default_of_field, detect_present_fields, name_of_field, upgrade_config,
    FIELD_COUNT,
};

#[test]
fn test_default_config_toml() {
    let toml = default_config_toml();

    assert!(toml.contains("background_lightness = 0.18"));
    assert!(toml.contains("background_saturation = 1.00"));
    assert!(toml.contains("trigger_files = []"));
    assert!(toml.contains("[auto]"));
    assert!(toml.contains("hue_min = 0.0"));
    assert!(toml.contains("hue_max = 360.0"));
    assert!(toml.contains("saturation_min = 0.7"));
    assert!(toml.contains("saturation_max = 0.9"));
    assert!(toml.contains("lightness = 0.55"));
    assert!(toml.contains("color_format"));

    assert!(toml.contains("# termtint user configuration"));
    assert!(toml.contains("# Fixed lightness for darkened backgrounds"));
    assert!(toml.contains("# Saturation multiplier for backgrounds"));
    assert!(toml.contains("# Auto color generation parameters"));

    let parsed: Result<toml::Table, _> = toml.parse();
    assert!(parsed.is_ok());

    let parsed_toml = parsed.unwrap();
    assert_eq!(parsed_toml["background_lightness"].as_float().unwrap() as f32, 0.18f32);
    assert_eq!(parsed_toml["background_saturation"].as_float().unwrap() as f32, 1.0f32);
    assert!(parsed_toml["trigger_files"].as_array().unwrap().is_empty());
    assert!(parsed_toml["trigger_paths"].as_array().unwrap().is_empty());
    assert_eq!(parsed_toml["color_format"].as_str(), Some("hex"));

    let auto = parsed_toml["auto"].as_table().expect("auto section should be present");
    assert_eq!(auto["hue_min"].as_float().unwrap() as f32, 0.0f32);
    assert_eq!(auto["hue_max"].as_float().unwrap() as f32, 360.0f32);
    assert_eq!(auto["saturation_min"].as_float().unwrap() as f32, 0.7f32);
    assert_eq!(auto["saturation_max"].as_float().unwrap() as f32, 0.9f32);
    assert_eq!(auto["lightness"].as_float().unwrap() as f32, 0.55f32);
}

#[test]
fn default_config_text_in_full() {
    let expected = "\
# termtint user configuration
# Location: ~/.config/termtint/config.toml

# Fixed lightness for darkened backgrounds (0.0 to 1.0)
background_lightness = 0.18

# Saturation multiplier for backgrounds (0.0 to 1.0)
# 1.0 = preserve original saturation, 0.0 = grayscale
background_saturation = 1.00

# Files that trigger automatic color generation when found
# Examples: [\"Cargo.toml\", \"package.json\", \"go.mod\", \"pyproject.toml\"]
trigger_files = []

# Path globs that trigger automatic color generation
# Directories matching these patterns are treated as having 'auto' in .termtint
# Supports ~ for home directory. Example: [\"~/Code/*\", \"~/Projects/*\"]
trigger_paths = []

# Color format for display: \"hex\", \"hsl\", or \"rgb\"
color_format = \"hex\"

# Auto color generation parameters
[auto]
# Hue range in degrees (0.0 to 360.0)
hue_min = 0.0
hue_max = 360.0

# Saturation range (0.0 to 1.0)
saturation_min = 0.7
saturation_max = 0.9

# Lightness for generated tab colors (0.0 to 1.0)
lightness = 0.55
";
    assert_eq!(default_config_toml(), expected);
}

#[test]
fn default_config_starts_and_ends_as_written() {
    let text = default_config_toml();
    assert!(text.starts_with("# termtint user configuration\n# Location: ~/.config/termtint/config.toml\n\n"));
    assert!(text.ends_with("# Lightness for generated tab colors (0.0 to 1.0)\nlightness = 0.55\n"));
    assert_eq!(text.lines().count(), 34);
}

#[test]
fn default_config_is_up_to_date() {
    let text = default_config_toml();
    let present = detect_present_fields(&text);
    assert_eq!(present.found, vec![true; FIELD_COUNT]);
    assert!(present.has_auto_section);
    assert_eq!(present.auto_section_line, Some(23));
    assert_eq!(upgrade_config(&text), text);
}

#[test]
fn field_names() {
    let names: Vec<&str> = (0..FIELD_COUNT).map(name_of_field).collect();
    assert_eq!(
        names,
        vec![
            "background_lightness",
            "background_saturation",
            "trigger_files",
            "trigger_paths",
            "color_format",
            "hue_min",
            "hue_max",
            "saturation_min",
            "saturation_max",
            "lightness"
        ]
    );
}

#[test]
fn field_defaults() {
    let defaults: Vec<&str> = (0..FIELD_COUNT).map(default_of_field).collect();
    assert_eq!(
        defaults,
        vec!["0.18", "1.00", "[]", "[]", "\"hex\"", "0.0", "360.0", "0.7", "0.9", "0.55"]
    );
    let text = default_config_toml();
    for k in 0..FIELD_COUNT {
        let line = format!("{} = {}", name_of_field(k), default_of_field(k));
        assert!(text.lines().any(|l| l == line), "{}", line);
    }
}

#[test]
fn present_fields_are_detected() {
    let present = detect_present_fields(
        "# comment only\n  hue_min=1\n#lightness = 0.5\n# # hue_max = 2\n[auto]\nunknown = 3\ntrigger_files\n = 4\n  [auto]  \ncolor_format = \"a=b\"\n",
    );
    assert_eq!(
        present.found,
        vec![false, false, false, false, true, true, false, false, false, true]
    );
    assert!(present.has_auto_section);
    assert_eq!(present.auto_section_line, Some(8));

    let present = detect_present_fields("");
    assert_eq!(present.found, vec![false; FIELD_COUNT]);
    assert!(!present.has_auto_section);
    assert_eq!(present.auto_section_line, None);

    let present = detect_present_fields("[auto] # header\n[Auto]\nauto\nhue_min: 3\nhue_min extra = 3");
    assert_eq!(present.found, vec![false; FIELD_COUNT]);
    assert!(!present.has_auto_section);
}

#[test]
fn upgrade_of_an_empty_file() {
    let expected = "\
# Fixed lightness for darkened backgrounds (0.0 to 1.0)
# background_lightness = 0.18

# Saturation multiplier for backgrounds (0.0 to 1.0)
# 1.0 = preserve original saturation, 0.0 = grayscale
# background_saturation = 1.00

# Files that trigger automatic color generation when found
# Examples: [\"Cargo.toml\", \"package.json\", \"go.mod\", \"pyproject.toml\"]
# trigger_files = []

# Path globs that trigger automatic color generation
# Directories matching these patterns are treated as having 'auto' in .termtint
# Supports ~ for home directory. Example: [\"~/Code/*\", \"~/Projects/*\"]
# trigger_paths = []

# Color format for display: \"hex\", \"hsl\", or \"rgb\"
# color_format = \"hex\"

# Auto color generation parameters
[auto]
# lightness = 0.55
# Lightness for generated tab colors (0.0 to 1.0)

# saturation_max = 0.9

# saturation_min = 0.7
# Saturation range (0.0 to 1.0)

# hue_max = 360.0

# hue_min = 0.0
# Hue range in degrees (0.0 to 360.0)
";
    assert_eq!(upgrade_config(""), expected);
}

#[test]
fn upgrade_puts_top_level_fields_before_the_header() {
    let content = "background_lightness = 0.2\nbackground_saturation = 1\ntrigger_files = []\ntrigger_paths = []\n[auto]\nhue_min = 1\nhue_max = 2\nsaturation_min = 0.1\nsaturation_max = 0.2\nlightness = 0.5\n";
    let expected = "background_lightness = 0.2\nbackground_saturation = 1\ntrigger_files = []\ntrigger_paths = []\n\n# Color format for display: \"hex\", \"hsl\", or \"rgb\"\n# color_format = \"hex\"\n\n[auto]\nhue_min = 1\nhue_max = 2\nsaturation_min = 0.1\nsaturation_max = 0.2\nlightness = 0.5\n";
    assert_eq!(upgrade_config(content), expected);
}

#[test]
fn upgrade_after_a_blank_line_adds_no_second_one() {
    let content = "background_lightness = 0.2\nbackground_saturation = 1\ntrigger_files = []\ntrigger_paths = []\n\n[auto]\nhue_min = 1\nhue_max = 2\nsaturation_min = 0.1\nsaturation_max = 0.2\n";
    let expected = "background_lightness = 0.2\nbackground_saturation = 1\ntrigger_files = []\ntrigger_paths = []\n\n# Color format for display: \"hex\", \"hsl\", or \"rgb\"\n# color_format = \"hex\"\n\n[auto]\nhue_min = 1\nhue_max = 2\nsaturation_min = 0.1\nsaturation_max = 0.2\n# lightness = 0.55\n# Lightness for generated tab colors (0.0 to 1.0)\n";
    assert_eq!(upgrade_config(content), expected);
}

#[test]
fn upgrade_opens_the_auto_section() {
    let content = "background_lightness = 0.2\nbackground_saturation = 1\ntrigger_files = []\ntrigger_paths = []\ncolor_format = \"rgb\"\nhue_min = 1\nhue_max = 2\nsaturation_min = 0.1\nlightness = 0.3";
    let expected = "background_lightness = 0.2\nbackground_saturation = 1\ntrigger_files = []\ntrigger_paths = []\ncolor_format = \"rgb\"\nhue_min = 1\nhue_max = 2\nsaturation_min = 0.1\nlightness = 0.3\n\n# Auto color generation parameters\n[auto]\n# saturation_max = 0.9\n";
    assert_eq!(upgrade_config(content), expected);
}

#[test]
fn upgrade_keeps_a_complete_file_as_it_is() {
    let content = "a = 1\r\nbackground_lightness=0\n#background_saturation=0\ntrigger_files=0\ntrigger_paths=0\ncolor_format=0\nhue_min=0\nhue_max=0\nsaturation_min=0\nsaturation_max=0\nlightness=0";
    assert_eq!(upgrade_config(content), content);
}

#[test]
fn upgrade_of_a_file_that_ends_in_a_blank_line() {
    let content = "color_format=0\n[auto]\nhue_min=0\nhue_max=0\nsaturation_min=0\nsaturation_max=0\nlightness=0\n\n";
    let expected = "color_format=0\n\n# Fixed lightness for darkened backgrounds (0.0 to 1.0)\n# background_lightness = 0.18\n\n# Saturation multiplier for backgrounds (0.0 to 1.0)\n# 1.0 = preserve original saturation, 0.0 = grayscale\n# background_saturation = 1.00\n\n# Files that trigger automatic color generation when found\n# Examples: [\"Cargo.toml\", \"package.json\", \"go.mod\", \"pyproject.toml\"]\n# trigger_files = []\n\n# Path globs that trigger automatic color generation\n# Directories matching these patterns are treated as having 'auto' in .termtint\n# Supports ~ for home directory. Example: [\"~/Code/*\", \"~/Projects/*\"]\n# trigger_paths = []\n\n[auto]\nhue_min=0\nhue_max=0\nsaturation_min=0\nsaturation_max=0\nlightness=0\n";
    assert_eq!(upgrade_config(content), expected);
}
