//! Text that is shown to the user: the two colors side by side in a box, a
//! die in the two colors, and the code that hooks the program into a shell.
//! Nothing here writes to the terminal; the caller prints what it gets.

use crate::color::RGB;
use crate::text::{append_chars, append_str, decimal, equals_str, push_decimal, to_chars, to_string};
use vstd::prelude::*;

verus! {

// ---------------------------------------------------------------------------
// Pieces
// ---------------------------------------------------------------------------

/// `n` times the character `c`.
pub open spec fn repeated(c: char, n: nat) -> Seq<char> {
    Seq::new(n, |i: int| c)
}

/// The text, with spaces after it where it is shorter than `width`.
pub open spec fn padded(text: Seq<char>, width: nat) -> Seq<char> {
    if text.len() >= width {
        text
    } else {
        text + repeated(' ', (width - text.len()) as nat)
    }
}

/// The sequence that makes `color` the background of what follows.
pub open spec fn background_code(color: RGB) -> Seq<char> {
    "\x1b[48;2;"@ + decimal(color.r as nat) + ";"@ + decimal(color.g as nat) + ";"@ + decimal(
        color.b as nat,
    ) + "m"@
}

/// The sequence that makes `color` the color of the text that follows.
pub open spec fn foreground_code(color: RGB) -> Seq<char> {
    "\x1b[38;2;"@ + decimal(color.r as nat) + ";"@ + decimal(color.g as nat) + ";"@ + decimal(
        color.b as nat,
    ) + "m"@
}

fn push_repeated(out: &mut Vec<char>, c: char, n: usize)
    ensures
        final(out)@ == old(out)@ + repeated(c, n as nat),
{
    let mut i: usize = 0;
    assert(out@ =~= old(out)@ + repeated(c, 0));
    while i < n
        invariant
            i <= n,
            out@ == old(out)@ + repeated(c, i as nat),
        decreases n - i,
    {
        out.push(c);
        i += 1;
        assert(out@ =~= old(out)@ + repeated(c, i as nat));
    }
}

fn push_padded(out: &mut Vec<char>, text: &Vec<char>, width: usize)
    ensures
        final(out)@ == old(out)@ + padded(text@, width as nat),
{
    append_chars(out, text);
    if text.len() < width {
        push_repeated(out, ' ', width - text.len());
    }
    assert(out@ =~= old(out)@ + padded(text@, width as nat));
}

fn push_background_code(out: &mut Vec<char>, color: &RGB)
    ensures
        final(out)@ == old(out)@ + background_code(*color),
{
    append_str(out, "\x1b[48;2;");
    push_decimal(out, color.r as u64);
    append_str(out, ";");
    push_decimal(out, color.g as u64);
    append_str(out, ";");
    push_decimal(out, color.b as u64);
    append_str(out, "m");
    assert(out@ =~= old(out)@ + background_code(*color));
}

fn push_foreground_code(out: &mut Vec<char>, color: &RGB)
    ensures
        final(out)@ == old(out)@ + foreground_code(*color),
{
    append_str(out, "\x1b[38;2;");
    push_decimal(out, color.r as u64);
    append_str(out, ";");
    push_decimal(out, color.g as u64);
    append_str(out, ";");
    push_decimal(out, color.b as u64);
    append_str(out, "m");
    assert(out@ =~= old(out)@ + foreground_code(*color));
}

// ---------------------------------------------------------------------------
// The two colors in a box
// ---------------------------------------------------------------------------

/// The width of one swatch, in characters.
pub const SWATCH_WIDTH: usize = 16;

/// The height of the swatches, in lines.
pub const SWATCH_HEIGHT: usize = 6;

/// The space before the first swatch.
pub const LEFT_MARGIN: usize = 3;

/// The space between the two swatches.
pub const BETWEEN_SWATCHES: usize = 8;

/// The space after the second swatch.
pub const RIGHT_MARGIN: usize = 3;

/// The width of the inside of the box.
pub const INNER_WIDTH: usize = 46;

/// The top or the bottom of the box: a corner, the edge, a corner.
pub open spec fn border_line(left: char, right: char) -> Seq<char> {
    seq![left] + repeated('═', INNER_WIDTH as nat) + seq![right]
}

/// A line of the box that holds nothing.
pub open spec fn margin_line() -> Seq<char> {
    "║\x1b[48;2;0;0;0m"@ + repeated(' ', INNER_WIDTH as nat) + "\x1b[0m║"@
}

/// A line of the box that holds a text above or below each swatch.
pub open spec fn label_line(left: Seq<char>, right: Seq<char>) -> Seq<char> {
    "║\x1b[48;2;0;0;0m"@ + repeated(' ', LEFT_MARGIN as nat) + padded(left, SWATCH_WIDTH as nat)
        + repeated(' ', BETWEEN_SWATCHES as nat) + padded(right, SWATCH_WIDTH as nat) + repeated(
        ' ',
        RIGHT_MARGIN as nat,
    ) + "\x1b[0m║"@
}

/// A line of the box that goes through both swatches.
pub open spec fn swatch_line(tab: RGB, background: RGB) -> Seq<char> {
    "║\x1b[48;2;0;0;0m"@ + repeated(' ', LEFT_MARGIN as nat) + background_code(tab) + repeated(
        ' ',
        SWATCH_WIDTH as nat,
    ) + "\x1b[48;2;0;0;0m"@ + repeated(' ', BETWEEN_SWATCHES as nat) + background_code(
        background,
    ) + repeated(' ', SWATCH_WIDTH as nat) + "\x1b[48;2;0;0;0m"@ + repeated(
        ' ',
        RIGHT_MARGIN as nat,
    ) + "\x1b[0m║"@
}

/// The lines of the box: the top, the headings, the swatches, the two colors
/// as text, the bottom, with an empty line of the box between them.
pub open spec fn swatch_box(
    tab: RGB,
    background: RGB,
    tab_text: Seq<char>,
    background_text: Seq<char>,
) -> Seq<Seq<char>> {
    seq![border_line('╔', '╗'), margin_line(), label_line("Tab:"@, "Background:"@), margin_line()]
        + Seq::new(SWATCH_HEIGHT as nat, |i: int| swatch_line(tab, background)) + seq![
        margin_line(),
        label_line(tab_text, background_text),
        margin_line(),
        border_line('╚', '╝'),
    ]
}

/// The views of a list of strings.
pub open spec fn text_views(lines: Seq<String>) -> Seq<Seq<char>> {
    lines.map_values(|s: String| s@)
}

fn border(left: char, right: char) -> (line: String)
    ensures
        line@ == border_line(left, right),
{
    let mut out: Vec<char> = Vec::new();
    out.push(left);
    push_repeated(&mut out, '═', INNER_WIDTH);
    out.push(right);
    assert(out@ =~= border_line(left, right));
    to_string(&out)
}

fn margin() -> (line: String)
    ensures
        line@ == margin_line(),
{
    let mut out: Vec<char> = Vec::new();
    append_str(&mut out, "║\x1b[48;2;0;0;0m");
    push_repeated(&mut out, ' ', INNER_WIDTH);
    append_str(&mut out, "\x1b[0m║");
    assert(out@ =~= margin_line());
    to_string(&out)
}

fn labels(left: &str, right: &str) -> (line: String)
    ensures
        line@ == label_line(left@, right@),
{
    let left_chars = to_chars(left);
    let right_chars = to_chars(right);
    let mut out: Vec<char> = Vec::new();
    append_str(&mut out, "║\x1b[48;2;0;0;0m");
    push_repeated(&mut out, ' ', LEFT_MARGIN);
    push_padded(&mut out, &left_chars, SWATCH_WIDTH);
    push_repeated(&mut out, ' ', BETWEEN_SWATCHES);
    push_padded(&mut out, &right_chars, SWATCH_WIDTH);
    push_repeated(&mut out, ' ', RIGHT_MARGIN);
    append_str(&mut out, "\x1b[0m║");
    assert(out@ =~= label_line(left@, right@));
    to_string(&out)
}

fn swatches(tab: &RGB, background: &RGB) -> (line: String)
    ensures
        line@ == swatch_line(*tab, *background),
{
    let mut out: Vec<char> = Vec::new();
    append_str(&mut out, "║\x1b[48;2;0;0;0m");
    push_repeated(&mut out, ' ', LEFT_MARGIN);
    push_background_code(&mut out, tab);
    push_repeated(&mut out, ' ', SWATCH_WIDTH);
    append_str(&mut out, "\x1b[48;2;0;0;0m");
    push_repeated(&mut out, ' ', BETWEEN_SWATCHES);
    push_background_code(&mut out, background);
    push_repeated(&mut out, ' ', SWATCH_WIDTH);
    append_str(&mut out, "\x1b[48;2;0;0;0m");
    push_repeated(&mut out, ' ', RIGHT_MARGIN);
    append_str(&mut out, "\x1b[0m║");
    assert(out@ =~= swatch_line(*tab, *background));
    to_string(&out)
}

/// The lines of a box that shows the tab color and the background color
/// side by side, each with its color written below it. `tab_text` and
/// `background_text` are the two colors in the notation that the user likes.
pub fn color_swatch_lines(tab: &RGB, background: &RGB, tab_text: &str, background_text: &str) -> (lines:
    Vec<String>)
    ensures
        text_views(lines@) == swatch_box(*tab, *background, tab_text@, background_text@),
{
    let mut lines: Vec<String> = Vec::new();
    lines.push(border('╔', '╗'));
    lines.push(margin());
    lines.push(labels("Tab:", "Background:"));
    lines.push(margin());
    let ghost head = text_views(lines@);
    assert(head =~= seq![
        border_line('╔', '╗'),
        margin_line(),
        label_line("Tab:"@, "Background:"@),
        margin_line(),
    ]);
    let mut i: usize = 0;
    while i < SWATCH_HEIGHT
        invariant
            i <= SWATCH_HEIGHT,
            text_views(lines@) == head + Seq::new(i as nat, |k: int| swatch_line(*tab, *background)),
        decreases SWATCH_HEIGHT - i,
    {
        let ghost before = text_views(lines@);
        lines.push(swatches(tab, background));
        assert(text_views(lines@) =~= before.push(swatch_line(*tab, *background)));
        i += 1;
        assert(text_views(lines@) =~= head + Seq::new(
            i as nat,
            |k: int| swatch_line(*tab, *background),
        ));
    }
    let ghost middle = text_views(lines@);
    lines.push(margin());
    lines.push(labels(tab_text, background_text));
    lines.push(margin());
    lines.push(border('╚', '╝'));
    assert(text_views(lines@) =~= middle + seq![
        margin_line(),
        label_line(tab_text@, background_text@),
        margin_line(),
        border_line('╚', '╝'),
    ]);
    lines
}

// ---------------------------------------------------------------------------
// The die
// ---------------------------------------------------------------------------

/// The three rows of dots of a die that shows `value`. A value that no die
/// has gives a question mark.
pub open spec fn die_rows(value: u8) -> Seq<Seq<char>> {
    if value == 1 {
        seq!["       "@, "   ●   "@, "       "@]
    } else if value == 2 {
        seq![" ●     "@, "       "@, "     ● "@]
    } else if value == 3 {
        seq![" ●     "@, "   ●   "@, "     ● "@]
    } else if value == 4 {
        seq![" ●   ● "@, "       "@, " ●   ● "@]
    } else if value == 5 {
        seq![" ●   ● "@, "   ●   "@, " ●   ● "@]
    } else if value == 6 {
        seq![" ●   ● "@, " ●   ● "@, " ●   ● "@]
    } else {
        seq!["       "@, "   ?   "@, "       "@]
    }
}

/// The top or the bottom of the die, on the background color.
pub open spec fn die_edge(edge: Seq<char>, background: RGB) -> Seq<char> {
    "\x1b[0m"@ + background_code(background) + edge + "\x1b[0m\n"@
}

/// One row of the die: its dots in the tab color on the background color.
pub open spec fn die_row(dots: Seq<char>, tab: RGB, background: RGB) -> Seq<char> {
    "\x1b[0m"@ + background_code(background) + " │"@ + foreground_code(tab) + dots + "\x1b[0m"@
        + background_code(background) + "│ \x1b[0m\n"@
}

/// A die that shows `value`: its face has the background color, its dots
/// the tab color. Five lines, each ended by a line feed.
pub open spec fn die_text(value: u8, tab: RGB, background: RGB) -> Seq<char> {
    die_edge(" ┌───────┐ "@, background) + die_row(die_rows(value)[0], tab, background) + die_row(
        die_rows(value)[1],
        tab,
        background,
    ) + die_row(die_rows(value)[2], tab, background) + die_edge(" └───────┘ "@, background)
}

fn push_die_edge(out: &mut Vec<char>, edge: &str, background: &RGB)
    ensures
        final(out)@ == old(out)@ + die_edge(edge@, *background),
{
    append_str(out, "\x1b[0m");
    push_background_code(out, background);
    append_str(out, edge);
    append_str(out, "\x1b[0m\n");
    assert(out@ =~= old(out)@ + die_edge(edge@, *background));
}

fn push_die_row(out: &mut Vec<char>, dots: &str, tab: &RGB, background: &RGB)
    ensures
        final(out)@ == old(out)@ + die_row(dots@, *tab, *background),
{
    append_str(out, "\x1b[0m");
    push_background_code(out, background);
    append_str(out, " │");
    push_foreground_code(out, tab);
    append_str(out, dots);
    append_str(out, "\x1b[0m");
    push_background_code(out, background);
    append_str(out, "│ \x1b[0m\n");
    assert(out@ =~= old(out)@ + die_row(dots@, *tab, *background));
}

fn rows_of_die(value: u8) -> (rows: (&'static str, &'static str, &'static str))
    ensures
        seq![rows.0@, rows.1@, rows.2@] == die_rows(value),
{
    if value == 1 {
        ("       ", "   ●   ", "       ")
    } else if value == 2 {
        (" ●     ", "       ", "     ● ")
    } else if value == 3 {
        (" ●     ", "   ●   ", "     ● ")
    } else if value == 4 {
        (" ●   ● ", "       ", " ●   ● ")
    } else if value == 5 {
        (" ●   ● ", "   ●   ", " ●   ● ")
    } else if value == 6 {
        (" ●   ● ", " ●   ● ", " ●   ● ")
    } else {
        ("       ", "   ?   ", "       ")
    }
}

/// Draws a die that shows `value`, from 1 to 6, in the two colors.
pub fn render_die(value: u8, tab_color: &RGB, bg_color: &RGB) -> (text: String)
    ensures
        text@ == die_text(value, *tab_color, *bg_color),
{
    let rows = rows_of_die(value);
    assert(die_rows(value)[0] == rows.0@ && die_rows(value)[1] == rows.1@ && die_rows(value)[2]
        == rows.2@) by {
        assert(seq![rows.0@, rows.1@, rows.2@][0] == rows.0@);
        assert(seq![rows.0@, rows.1@, rows.2@][1] == rows.1@);
        assert(seq![rows.0@, rows.1@, rows.2@][2] == rows.2@);
    }
    let mut out: Vec<char> = Vec::new();
    push_die_edge(&mut out, " ┌───────┐ ", bg_color);
    push_die_row(&mut out, rows.0, tab_color, bg_color);
    push_die_row(&mut out, rows.1, tab_color, bg_color);
    push_die_row(&mut out, rows.2, tab_color, bg_color);
    push_die_edge(&mut out, " └───────┘ ", bg_color);
    assert(out@ =~= die_text(value, *tab_color, *bg_color));
    to_string(&out)
}

// ---------------------------------------------------------------------------
// Shell hooks
// ---------------------------------------------------------------------------

/// The code that makes a shell run the program whenever the directory
/// changes, for the shells `zsh`, `bash` and `fish`.
pub open spec fn hook_text(shell: Seq<char>) -> Option<Seq<char>> {
    if shell == "zsh"@ {
        Some(
            "_termtint_hook() {\n  termtint apply\n}\nautoload -Uz add-zsh-hook\nadd-zsh-hook chpwd _termtint_hook\n_termtint_hook"@,
        )
    } else if shell == "bash"@ {
        Some(
            "_termtint_hook() {\n  termtint apply\n}\n_termtint_prompt_command() {\n  local _termtint_new_pwd=\"$PWD\"\n  if [[ \"$_termtint_new_pwd\" != \"$_TERMTINT_LAST_PWD\" ]]; then\n    _TERMTINT_LAST_PWD=\"$_termtint_new_pwd\"\n    _termtint_hook\n  fi\n}\n_TERMTINT_LAST_PWD=\"$PWD\"\nif [[ -z \"${PROMPT_COMMAND}\" ]]; then\n  PROMPT_COMMAND=\"_termtint_prompt_command\"\nelif [[ \"${PROMPT_COMMAND}\" != *\"_termtint_prompt_command\"* ]]; then\n  PROMPT_COMMAND=\"_termtint_prompt_command;${PROMPT_COMMAND}\"\nfi\n_termtint_hook"@,
        )
    } else if shell == "fish"@ {
        Some("function _termtint_hook --on-variable PWD\n  termtint apply\nend\n_termtint_hook"@)
    } else {
        None
    }
}

/// The hook code for a shell, or `None` for a shell that is not supported.
pub fn hook_script(shell: &str) -> (script: Option<String>)
    ensures
        match script {
            Some(text) => hook_text(shell@) == Some(text@),
            None => hook_text(shell@) is None,
        },
{
    let name = to_chars(shell);
    if equals_str(&name, "zsh") {
        Some(
            "_termtint_hook() {\n  termtint apply\n}\nautoload -Uz add-zsh-hook\nadd-zsh-hook chpwd _termtint_hook\n_termtint_hook".to_owned(),
        )
    } else if equals_str(&name, "bash") {
        Some(
            "_termtint_hook() {\n  termtint apply\n}\n_termtint_prompt_command() {\n  local _termtint_new_pwd=\"$PWD\"\n  if [[ \"$_termtint_new_pwd\" != \"$_TERMTINT_LAST_PWD\" ]]; then\n    _TERMTINT_LAST_PWD=\"$_termtint_new_pwd\"\n    _termtint_hook\n  fi\n}\n_TERMTINT_LAST_PWD=\"$PWD\"\nif [[ -z \"${PROMPT_COMMAND}\" ]]; then\n  PROMPT_COMMAND=\"_termtint_prompt_command\"\nelif [[ \"${PROMPT_COMMAND}\" != *\"_termtint_prompt_command\"* ]]; then\n  PROMPT_COMMAND=\"_termtint_prompt_command;${PROMPT_COMMAND}\"\nfi\n_termtint_hook".to_owned(),
        )
    } else if equals_str(&name, "fish") {
        Some(
            "function _termtint_hook --on-variable PWD\n  termtint apply\nend\n_termtint_hook".to_owned(),
        )
    } else {
        None
    }
}

} // verus!
