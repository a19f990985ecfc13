//! What is written into a new marker file, and when none is written.

use crate::color::{hex_digit_char, parse_color, InvalidColor, RGB};
use crate::config::{format_of, parsed_color, ConfigFormat};
use crate::text::{append_str, is_whitespace, to_string, trim, trim_end, trim_start};
use vstd::prelude::*;

verus! {

/// Why no marker file is written.
#[derive(Debug, Clone, PartialEq, Eq)]
pub enum InitError {
    /// The directory has a marker file, and overwriting was not asked for.
    AlreadyExists,
    /// The directory has no marker file, and creating one was not asked for.
    Missing,
    /// The tab color could not be read.
    InvalidColor(InvalidColor),
    /// A background color was given without a tab color.
    BackgroundWithoutColor,
    /// The background color could not be read.
    InvalidBackground(InvalidColor),
}

pub enum InitErrorView {
    AlreadyExists,
    Missing,
    InvalidColor { text: Seq<char>, reason: Seq<char> },
    BackgroundWithoutColor,
    InvalidBackground { text: Seq<char>, reason: Seq<char> },
}

impl View for InitError {
    type V = InitErrorView;

    open spec fn view(&self) -> InitErrorView {
        match self {
            InitError::AlreadyExists => InitErrorView::AlreadyExists,
            InitError::Missing => InitErrorView::Missing,
            InitError::InvalidColor(e) => InitErrorView::InvalidColor {
                text: e.text@,
                reason: e.reason@,
            },
            InitError::BackgroundWithoutColor => InitErrorView::BackgroundWithoutColor,
            InitError::InvalidBackground(e) => InitErrorView::InvalidBackground {
                text: e.text@,
                reason: e.reason@,
            },
        }
    }
}

impl InitErrorView {
    /// The error in words.
    pub open spec fn message_text(self) -> Seq<char> {
        match self {
            InitErrorView::AlreadyExists => "Error: .termtint already exists in this directory\nUse --force to overwrite"@,
            InitErrorView::Missing => "Error: .termtint does not exist in this directory\nUse --force to create a new one"@,
            InitErrorView::InvalidColor { text, reason } => "Invalid color: "@ + "Invalid color '"@
                + text + "': "@ + reason,
            InitErrorView::BackgroundWithoutColor => "Error: --background requires an explicit tab color\nProvide a color argument or omit --background"@,
            InitErrorView::InvalidBackground { text, reason } => "Invalid background color: "@
                + "Invalid color '"@ + text + "': "@ + reason,
        }
    }
}

impl InitError {
    /// The error in words.
    pub fn message(&self) -> (text: String)
        ensures
            text@ == self@.message_text(),
    {
        let mut out: Vec<char> = Vec::new();
        match self {
            InitError::AlreadyExists => {
                append_str(
                    &mut out,
                    "Error: .termtint already exists in this directory\nUse --force to overwrite",
                );
            },
            InitError::Missing => {
                append_str(
                    &mut out,
                    "Error: .termtint does not exist in this directory\nUse --force to create a new one",
                );
            },
            InitError::InvalidColor(e) => {
                append_str(&mut out, "Invalid color: ");
                append_str(&mut out, "Invalid color '");
                append_str(&mut out, e.text.as_str());
                append_str(&mut out, "': ");
                append_str(&mut out, e.reason.as_str());
            },
            InitError::BackgroundWithoutColor => {
                append_str(
                    &mut out,
                    "Error: --background requires an explicit tab color\nProvide a color argument or omit --background",
                );
            },
            InitError::InvalidBackground(e) => {
                append_str(&mut out, "Invalid background color: ");
                append_str(&mut out, "Invalid color '");
                append_str(&mut out, e.text.as_str());
                append_str(&mut out, "': ");
                append_str(&mut out, e.reason.as_str());
            },
        }
        assert(out@ =~= self@.message_text());
        to_string(&out)
    }
}

/// The content of a marker file for the given colors: the word `auto`
/// where no color is given, the tab color in hexadecimal where it alone is
/// given, and both colors as key-value pairs where both are given. Each
/// line is ended by a line feed.
pub open spec fn marker_content(tab: Option<RGB>, background: Option<RGB>) -> Seq<char> {
    match tab {
        None => "auto\n"@,
        Some(t) => match background {
            None => t.hex_text() + "\n"@,
            Some(b) => "tab = \""@ + t.hex_text() + "\"\nbackground = \""@ + b.hex_text()
                + "\"\n"@,
        },
    }
}

/// A color in hexadecimal is `#` and six hexadecimal digits: seven
/// characters, none of them whitespace or `=`.
proof fn lemma_hex_text(color: RGB)
    ensures
        color.hex_text().len() == 7,
        color.hex_text()[0] == '#',
        forall|i: int|
            0 <= i < 7 ==> !is_whitespace(#[trigger] color.hex_text()[i]) && color.hex_text()[i]
                != '=',
{
    let text = color.hex_text();
    assert(text =~= seq![
        '#',
        hex_digit_char(color.r as int / 16),
        hex_digit_char(color.r as int % 16),
        hex_digit_char(color.g as int / 16),
        hex_digit_char(color.g as int % 16),
        hex_digit_char(color.b as int / 16),
        hex_digit_char(color.b as int % 16),
    ]);
}

/// A text that neither starts nor ends with whitespace is what is left of
/// it with a line feed after it, once that is trimmed.
proof fn lemma_trim_line(line: Seq<char>)
    requires
        line.len() > 0,
        !is_whitespace(line[0]),
        !is_whitespace(line.last()),
    ensures
        trim(line.push('\n')) == line,
{
    let ended = line.push('\n');
    assert(ended[0] == line[0]);
    assert(trim_start(ended) == ended);
    assert(ended.drop_last() == line);
    assert(trim_end(line) == line);
}

/// A marker file is read in the form in which it was written: the word
/// `auto` as an automatic color, a single color as a color literal, and two
/// colors as key-value pairs.
pub proof fn lemma_marker_content_format(tab: Option<RGB>, background: Option<RGB>)
    ensures
        format_of(marker_content(tab, background)) == match tab {
            None => ConfigFormat::Auto,
            Some(_) => match background {
                None => ConfigFormat::SimpleColor,
                Some(_) => ConfigFormat::Toml,
            },
        },
{
    reveal_strlit("auto\n");
    reveal_strlit("auto");
    reveal_strlit("\n");
    reveal_strlit("tab = \"");
    reveal_strlit("\"\nbackground = \"");
    reveal_strlit("\"\n");
    match tab {
        None => {
            let word = "auto"@;
            assert("auto\n"@ =~= word.push('\n'));
            lemma_trim_line(word);
        },
        Some(t) => {
            lemma_hex_text(t);
            let hex = t.hex_text();
            match background {
                None => {
                    assert(hex + "\n"@ =~= hex.push('\n'));
                    lemma_trim_line(hex);
                    assert(hex.len() != "auto"@.len());
                    if hex.contains('=') {
                        let i = choose|i: int| 0 <= i < hex.len() && hex[i] == '=';
                        assert(hex[i] != '=');
                    }
                },
                Some(b) => {
                    lemma_hex_text(b);
                    let content = marker_content(tab, background);
                    let body = "tab = \""@ + hex + "\"\nbackground = \""@ + b.hex_text() + seq![
                        '"',
                    ];
                    assert(content =~= body.push('\n'));
                    assert(body[0] == 't');
                    assert(body.last() == '"');
                    lemma_trim_line(body);
                    assert(body[4] == '=');
                    assert(body.len() != "auto"@.len());
                },
            }
        },
    }
}

/// What a text means as an optional color literal.
pub open spec fn optional_color(literal: Option<Seq<char>>) -> Option<
    Result<RGB, (Seq<char>, Seq<char>)>,
> {
    match literal {
        Some(l) => Some(parsed_color(l)),
        None => None,
    }
}

/// What is written into a new marker file, or why none is written. A
/// marker file that exists is overwritten only where that is forced. The
/// tab color is looked at before the background; a background needs a tab
/// color beside it.
pub open spec fn init_plan(
    present: bool,
    force: bool,
    color: Option<Result<RGB, (Seq<char>, Seq<char>)>>,
    background: Option<Result<RGB, (Seq<char>, Seq<char>)>>,
) -> Result<Seq<char>, InitErrorView> {
    if present && !force {
        Err(InitErrorView::AlreadyExists)
    } else {
        match color {
            Some(Err((text, reason))) => Err(InitErrorView::InvalidColor { text, reason }),
            None => match background {
                Some(_) => Err(InitErrorView::BackgroundWithoutColor),
                None => Ok(marker_content(None, None)),
            },
            Some(Ok(tab)) => match background {
                Some(Err((text, reason))) => Err(InitErrorView::InvalidBackground { text, reason }),
                Some(Ok(b)) => Ok(marker_content(Some(tab), Some(b))),
                None => Ok(marker_content(Some(tab), None)),
            },
        }
    }
}

/// A content or an error, seen through its view.
pub open spec fn init_view(r: Result<String, InitError>) -> Result<Seq<char>, InitErrorView> {
    match r {
        Ok(content) => Ok(content@),
        Err(e) => Err(e@),
    }
}

/// The content of a marker file for the given colors.
pub fn marker_file_content(tab: Option<RGB>, background: Option<RGB>) -> (content: String)
    ensures
        content@ == marker_content(tab, background),
{
    let mut out: Vec<char> = Vec::new();
    match tab {
        None => {
            append_str(&mut out, "auto\n");
        },
        Some(t) => match background {
            None => {
                let hex = t.to_hex_string();
                append_str(&mut out, hex.as_str());
                append_str(&mut out, "\n");
            },
            Some(b) => {
                let tab_hex = t.to_hex_string();
                let background_hex = b.to_hex_string();
                append_str(&mut out, "tab = \"");
                append_str(&mut out, tab_hex.as_str());
                append_str(&mut out, "\"\nbackground = \"");
                append_str(&mut out, background_hex.as_str());
                append_str(&mut out, "\"\n");
            },
        },
    }
    assert(out@ =~= marker_content(tab, background));
    to_string(&out)
}

/// Decides what is written into a new marker file. `exists` says whether
/// the directory has a marker file already, `force` whether it may be
/// overwritten; `color` and `background` are the color literals that were
/// given.
pub fn init_content(exists: bool, force: bool, color: Option<&str>, background: Option<&str>) -> (result:
    Result<String, InitError>)
    ensures
        init_view(result) == init_plan(
            exists,
            force,
            optional_color(
                match color {
                    Some(s) => Some(s@),
                    None => None,
                },
            ),
            optional_color(
                match background {
                    Some(s) => Some(s@),
                    None => None,
                },
            ),
        ),
{
    if exists && !force {
        return Err(InitError::AlreadyExists);
    }
    let tab: Option<RGB> = match color {
        Some(literal) => match parse_color(literal) {
            Ok(c) => Some(c),
            Err(e) => {
                return Err(InitError::InvalidColor(e));
            },
        },
        None => None,
    };
    if background.is_some() && tab.is_none() {
        return Err(InitError::BackgroundWithoutColor);
    }
    let back: Option<RGB> = match background {
        Some(literal) => match parse_color(literal) {
            Ok(c) => Some(c),
            Err(e) => {
                return Err(InitError::InvalidBackground(e));
            },
        },
        None => None,
    };
    Ok(marker_file_content(tab, back))
}

/// Whether the color of the marker file may be drawn again: the file
/// exists, or creating it is forced.
pub open spec fn reroll_allowed(present: bool, force: bool) -> bool {
    present || force
}

/// What is written into the marker file when its color is drawn again:
/// the new color in hexadecimal. A marker file that does not exist is
/// created only where that is forced.
pub open spec fn reroll_plan(present: bool, force: bool, color: RGB) -> Result<
    Seq<char>,
    InitErrorView,
> {
    if reroll_allowed(present, force) {
        Ok(marker_content(Some(color), None))
    } else {
        Err(InitErrorView::Missing)
    }
}

/// Decides, before a color is drawn, whether the color of the marker file
/// may be drawn again.
pub fn check_reroll(exists: bool, force: bool) -> (result: Result<(), InitError>)
    ensures
        (result is Ok) == reroll_allowed(exists, force),
        result matches Err(e) ==> e@ == InitErrorView::Missing,
{
    if !exists && !force {
        return Err(InitError::Missing);
    }
    Ok(())
}

/// Decides what is written into the marker file when its color is drawn
/// again.
pub fn reroll_content(exists: bool, force: bool, color: RGB) -> (result: Result<String, InitError>)
    ensures
        init_view(result) == reroll_plan(exists, force, color),
{
    match check_reroll(exists, force) {
        Ok(_) => Ok(marker_file_content(Some(color), None)),
        Err(e) => Err(e),
    }
}

} // verus!
