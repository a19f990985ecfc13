use termtint::color::{color_from_outcome, normalize_literal, parse_color, InvalidColor, RGB};

#[test]
fn test_parse_color_hex_with_hash() {
    let rgb = parse_color("#ff5500").unwrap();
    assert_eq!(rgb, RGB { r: 255, g: 85, b: 0 });
}

#[test]
fn test_parse_color_hex_without_hash() {
    let rgb = parse_color("00ff00").unwrap();
    assert_eq!(rgb, RGB { r: 0, g: 255, b: 0 });
}

#[test]
fn test_parse_color_hex_with_whitespace() {
    let rgb = parse_color("  #aabbcc  ").unwrap();
    assert_eq!(rgb, RGB { r: 170, g: 187, b: 204 });
}

#[test]
fn test_parse_color_hex_3digit() {
    let rgb = parse_color("#f50").unwrap();
    assert_eq!(rgb, RGB { r: 255, g: 85, b: 0 });
}

#[test]
fn test_parse_color_hex_3digit_abc() {
    let rgb = parse_color("#abc").unwrap();
    assert_eq!(rgb, RGB { r: 170, g: 187, b: 204 });
}

#[test]
fn test_parse_color_rgb_function() {
    let rgb = parse_color("rgb(255, 85, 0)").unwrap();
    assert_eq!(rgb, RGB { r: 255, g: 85, b: 0 });
}

#[test]
fn test_parse_color_hsl_function() {
    let rgb = parse_color("hsl(20, 100%, 50%)").unwrap();
    assert_eq!(rgb, RGB { r: 255, g: 85, b: 0 });
}

#[test]
fn test_parse_color_hsl_red() {
    let rgb = parse_color("hsl(0, 100%, 50%)").unwrap();
    assert_eq!(rgb, RGB { r: 255, g: 0, b: 0 });
}

#[test]
fn test_parse_color_hsl_green() {
    let rgb = parse_color("hsl(120, 100%, 50%)").unwrap();
    assert_eq!(rgb, RGB { r: 0, g: 255, b: 0 });
}

#[test]
fn test_parse_color_named_red() {
    let rgb = parse_color("red").unwrap();
    assert_eq!(rgb, RGB { r: 255, g: 0, b: 0 });
}

#[test]
fn test_parse_color_named_tomato() {
    let rgb = parse_color("tomato").unwrap();
    assert_eq!(rgb, RGB { r: 255, g: 99, b: 71 });
}

#[test]
fn test_parse_color_invalid() {
    let result = parse_color("#gggggg");
    assert!(result.is_err());
}

#[test]
fn test_parse_color_invalid_notacolor() {
    let result = parse_color("notacolor");
    assert!(result.is_err());
}

#[test]
fn invalid_color_keeps_literal_and_reason() {
    let error = parse_color("  #gggggg \n").unwrap_err();
    assert_eq!(error.text, "#gggggg");
    assert_eq!(error.reason, "invalid hex format");
    assert_eq!(error.message(), "Invalid color '#gggggg': invalid hex format");

    let error = parse_color("notacolor").unwrap_err();
    assert_eq!(error.text, "notacolor");
    assert_eq!(error.reason, "invalid unknown format");

    let error = parse_color("").unwrap_err();
    assert_eq!(error.text, "");

    let error = parse_color("rgb(1, 2)").unwrap_err();
    assert_eq!(error.message(), "Invalid color 'rgb(1, 2)': invalid color function");
}

#[test]
fn literals_are_normalized() {
    assert_eq!(normalize_literal("ff5500"), "#ff5500");
    assert_eq!(normalize_literal("  FF55aa\t"), "#FF55aa");
    assert_eq!(normalize_literal("#ff5500"), "#ff5500");
    assert_eq!(normalize_literal("ff550"), "ff550");
    assert_eq!(normalize_literal("ff55000"), "ff55000");
    assert_eq!(normalize_literal("ff550g"), "ff550g");
    assert_eq!(normalize_literal("ff 500"), "ff 500");
    assert_eq!(normalize_literal(" red "), "red");
    assert_eq!(normalize_literal(""), "");
    assert_eq!(normalize_literal("   "), "");
    assert_eq!(normalize_literal("ｆｆ５５００"), "ｆｆ５５００");
}

#[test]
fn outcomes_become_colors() {
    assert_eq!(color_from_outcome(" x ", Ok((1, 2, 3, 4))), Ok(RGB { r: 1, g: 2, b: 3 }));
    assert_eq!(color_from_outcome(" x ", Ok((255, 0, 9, 0))), Ok(RGB { r: 255, g: 0, b: 9 }));
    assert_eq!(
        color_from_outcome(" x y ", Err("why".to_string())),
        Err(InvalidColor { text: "x y".to_string(), reason: "why".to_string() })
    );
}

#[test]
fn alpha_is_dropped() {
    assert_eq!(parse_color("#ff550080"), Ok(RGB { r: 255, g: 85, b: 0 }));
    assert_eq!(parse_color("transparent"), Ok(RGB { r: 0, g: 0, b: 0 }));
    assert_eq!(parse_color("rgba(10, 20, 30, 0.5)"), Ok(RGB { r: 10, g: 20, b: 30 }));
}

#[test]
fn literal_with_a_character_outside_ascii() {
    for literal in [
        "hsl(éab,0,0)",
        "hsl(éab, 0, 0)",
        "hwb(ürad 0 0)",
        "hsv(1é,0,0)",
        "oklch(0.5 0.1 é)",
        "é",
        "#ff55é0",
        "réd",
        "rgb(１, 2, 3)",
        "red\u{a0}blue",
        "\u{80}",
    ] {
        let error = parse_color(literal).unwrap_err();
        assert_eq!(error.text, literal, "{:?}", literal);
        assert_eq!(error.reason, "character outside ASCII", "{:?}", literal);
    }
    let error = parse_color("  hsl(éab,0,0)\n").unwrap_err();
    assert_eq!(error.text, "hsl(éab,0,0)");
    assert_eq!(
        error.message(),
        "Invalid color 'hsl(éab,0,0)': character outside ASCII"
    );
}

#[test]
fn whitespace_outside_ascii_is_trimmed_away() {
    assert_eq!(parse_color("\u{a0}red\u{3000}"), Ok(RGB { r: 255, g: 0, b: 0 }));
    assert_eq!(parse_color("\u{2003}#010203\u{2028}"), Ok(RGB { r: 1, g: 2, b: 3 }));
    assert_eq!(parse_color("\u{7f}").unwrap_err().reason, "invalid unknown format");
}

#[test]
fn ascii_function_literals_with_odd_parameters() {
    for literal in [
        "hsl(ab,0,0)",
        "hsl(g,0,0)",
        "hsl(deg,0,0)",
        "hsl(rad,0,0)",
        "hsl(,,)",
        "hsl()",
        "hwb(xturn 0 0)",
        "hsv(d,e,g)",
        "oklch(1 1 n)",
        "rgb(",
        "(",
        ")",
        "()",
        "#",
        "##",
        "rgb(1,2,3",
    ] {
        assert!(parse_color(literal).is_err(), "{:?}", literal);
    }
    assert_eq!(parse_color("hsl(120deg, 100%, 50%)"), Ok(RGB { r: 0, g: 255, b: 0 }));
    assert_eq!(parse_color("hsl(0.5turn, 100%, 50%)"), Ok(RGB { r: 0, g: 255, b: 255 }));
}
