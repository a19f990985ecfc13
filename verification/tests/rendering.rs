use termtint::color::RGB;
use termtint::render::{color_swatch_lines, hook_script, render_die};

fn expected_die(value: u8, tab: &RGB, background: &RGB) -> String {
    let bg = format!("\x1b[48;2;{};{};{}m", background.r, background.g, background.b);
    let fg = format!("\x1b[38;2;{};{};{}m", tab.r, tab.g, tab.b);
    let reset = "\x1b[0m";

    let dots = match value {
        1 => vec!["       ", "   ●   ", "       "],
        2 => vec![" ●     ", "       ", "     ● "],
        3 => vec![" ●     ", "   ●   ", "     ● "],
        4 => vec![" ●   ● ", "       ", " ●   ● "],
        5 => vec![" ●   ● ", "   ●   ", " ●   ● "],
        6 => vec![" ●   ● ", " ●   ● ", " ●   ● "],
        _ => vec!["       ", "   ?   ", "       "],
    };

    let mut result = String::new();
    result.push_str(&format!("{}{} ┌───────┐ {}\n", reset, bg, reset));
    for dot_row in dots {
        result.push_str(&format!(
            "{}{} │{}{}{}{}│ {}\n",
            reset, bg, fg, dot_row, reset, bg, reset
        ));
    }
    result.push_str(&format!("{}{} └───────┘ {}\n", reset, bg, reset));
    result
}

#[test]
fn die_faces() {
    let tab = RGB { r: 255, g: 85, b: 0 };
    let background = RGB { r: 48, g: 0, b: 7 };
    for value in 0..=255u8 {
        assert_eq!(render_die(value, &tab, &background), expected_die(value, &tab, &background));
    }
    let die = render_die(5, &tab, &background);
    assert_eq!(die.lines().count(), 5);
    assert_eq!(die.matches('●').count(), 5);
    assert_eq!(render_die(6, &tab, &background).matches('●').count(), 6);
    assert_eq!(render_die(7, &tab, &background).matches('?').count(), 1);
}

#[test]
fn swatch_box() {
    let tab = RGB { r: 255, g: 85, b: 0 };
    let background = RGB { r: 48, g: 0, b: 0 };
    let lines = color_swatch_lines(&tab, &background, "#ff5500", "hsl(0, 100%, 9%)");

    let black = "\x1b[48;2;0;0;0m";
    let margin = format!("║{}{}\x1b[0m║", black, " ".repeat(46));
    let swatch = format!(
        "║{}{}\x1b[48;2;255;85;0m{}{}{}\x1b[48;2;48;0;0m{}{}{}\x1b[0m║",
        black,
        " ".repeat(3),
        " ".repeat(16),
        black,
        " ".repeat(8),
        " ".repeat(16),
        black,
        " ".repeat(3)
    );
    let expected = vec![
        format!("╔{}╗", "═".repeat(46)),
        margin.clone(),
        format!("║{}   {:<16}        {:<16}   \x1b[0m║", black, "Tab:", "Background:"),
        margin.clone(),
        swatch.clone(),
        swatch.clone(),
        swatch.clone(),
        swatch.clone(),
        swatch.clone(),
        swatch,
        margin.clone(),
        format!("║{}   {:<16}        {:<16}   \x1b[0m║", black, "#ff5500", "hsl(0, 100%, 9%)"),
        margin,
        format!("╚{}╝", "═".repeat(46)),
    ];
    assert_eq!(lines, expected);
}

#[test]
fn swatch_box_with_long_and_empty_texts() {
    let tab = RGB { r: 1, g: 2, b: 3 };
    let lines = color_swatch_lines(&tab, &tab, "", "rgb(255, 255, 255) and more");
    let black = "\x1b[48;2;0;0;0m";
    assert_eq!(
        lines[11],
        format!(
            "║{}   {:<16}        {:<16}   \x1b[0m║",
            black, "", "rgb(255, 255, 255) and more"
        )
    );
    assert_eq!(lines.len(), 14);
}

#[test]
fn shell_hooks() {
    assert_eq!(
        hook_script("zsh"),
        Some(
            "_termtint_hook() {\n  termtint apply\n}\nautoload -Uz add-zsh-hook\nadd-zsh-hook chpwd _termtint_hook\n_termtint_hook"
                .to_string()
        )
    );
    assert_eq!(
        hook_script("fish"),
        Some(
            "function _termtint_hook --on-variable PWD\n  termtint apply\nend\n_termtint_hook"
                .to_string()
        )
    );
    let bash = hook_script("bash").unwrap();
    assert!(bash.starts_with("_termtint_hook() {\n  termtint apply\n}\n_termtint_prompt_command() {\n"));
    assert!(bash.contains("if [[ -z \"${PROMPT_COMMAND}\" ]]; then\n"));
    assert!(bash.ends_with("fi\n_termtint_hook"));
    assert_eq!(bash.lines().count(), 17);
    assert_eq!(hook_script("powershell"), None);
    assert_eq!(hook_script(""), None);
    assert_eq!(hook_script("ZSH"), None);
}
