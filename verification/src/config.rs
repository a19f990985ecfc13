//! Color sources and what they say: the three forms a marker file's content
//! can take, and the plan of colors that each source resolves to.
//!
//! A plan names the tab color, or the path whose hash gives it, and names
//! the background, or says that it is derived from the tab color. Hashing a
//! path to a color and deriving a background are done in floating point and
//! are left to the caller.

use crate::color::{literal_color, parse_color, InvalidColor, RGB};
use crate::text::{
    append_str, equals_str, find_char, lemma_first_index, to_chars, to_string, trim, trim_bounds,
};
use vstd::prelude::*;

verus! {

// ---------------------------------------------------------------------------
// Sources
// ---------------------------------------------------------------------------

/// Where the colors of a directory come from.
#[derive(Debug, Clone, PartialEq, Eq)]
pub enum ConfigSource {
    /// A marker file, by its path.
    Termtint(String),
    /// A directory that holds one of the trigger files.
    TriggerFile(String),
    /// A directory whose path matches one of the trigger patterns.
    TriggerPath(String),
}

/// A source with its path as a sequence of characters.
pub enum ConfigSourceView {
    Termtint(Seq<char>),
    TriggerFile(Seq<char>),
    TriggerPath(Seq<char>),
}

impl View for ConfigSource {
    type V = ConfigSourceView;

    open spec fn view(&self) -> ConfigSourceView {
        match self {
            ConfigSource::Termtint(p) => ConfigSourceView::Termtint(p@),
            ConfigSource::TriggerFile(p) => ConfigSourceView::TriggerFile(p@),
            ConfigSource::TriggerPath(p) => ConfigSourceView::TriggerPath(p@),
        }
    }
}

// ---------------------------------------------------------------------------
// Plans and errors
// ---------------------------------------------------------------------------

/// How the tab color is found.
#[derive(Debug, Clone, PartialEq, Eq)]
pub enum TabPlan {
    /// The color itself.
    Fixed(RGB),
    /// The color that the hash of this path gives.
    Auto(String),
}

/// How the background color is found.
#[derive(Debug, Clone, Copy, PartialEq, Eq, Structural)]
pub enum BackgroundPlan {
    /// The color itself.
    Fixed(RGB),
    /// The tab color, darkened.
    Derived,
}

/// The colors that a source resolves to.
#[derive(Debug, Clone, PartialEq, Eq)]
pub struct ColorPlan {
    pub tab: TabPlan,
    pub background: BackgroundPlan,
}

pub enum TabPlanView {
    Fixed(RGB),
    Auto(Seq<char>),
}

pub struct ColorPlanView {
    pub tab: TabPlanView,
    pub background: BackgroundPlan,
}

impl View for ColorPlan {
    type V = ColorPlanView;

    open spec fn view(&self) -> ColorPlanView {
        ColorPlanView {
            tab: match self.tab {
                TabPlan::Fixed(c) => TabPlanView::Fixed(c),
                TabPlan::Auto(p) => TabPlanView::Auto(p@),
            },
            background: self.background,
        }
    }
}

/// Why a source did not resolve to colors.
#[derive(Debug, Clone, PartialEq, Eq)]
pub enum ConfigError {
    /// A color literal could not be read.
    InvalidColor(InvalidColor),
    /// Key-value content without a string under `tab`.
    MissingRequiredKey,
    /// Key-value content that is no valid document.
    InvalidStructure(String),
    /// The marker file could not be read.
    Io { path: String, reason: String },
}

pub enum ConfigErrorView {
    InvalidColor { text: Seq<char>, reason: Seq<char> },
    MissingRequiredKey,
    InvalidStructure(Seq<char>),
    Io { path: Seq<char>, reason: Seq<char> },
}

impl View for ConfigError {
    type V = ConfigErrorView;

    open spec fn view(&self) -> ConfigErrorView {
        match self {
            ConfigError::InvalidColor(e) => ConfigErrorView::InvalidColor {
                text: e.text@,
                reason: e.reason@,
            },
            ConfigError::MissingRequiredKey => ConfigErrorView::MissingRequiredKey,
            ConfigError::InvalidStructure(m) => ConfigErrorView::InvalidStructure(m@),
            ConfigError::Io { path, reason } => ConfigErrorView::Io { path: path@, reason: reason@ },
        }
    }
}

impl ConfigErrorView {
    /// The error in words.
    pub open spec fn message_text(self) -> Seq<char> {
        match self {
            ConfigErrorView::InvalidColor { text, reason } => "Invalid color '"@ + text + "': "@
                + reason,
            ConfigErrorView::MissingRequiredKey => "Missing 'tab' key in TOML config"@,
            ConfigErrorView::InvalidStructure(reason) => "Failed to parse TOML: "@ + reason,
            ConfigErrorView::Io { path, reason } => "Failed to read config file: "@ + reason,
        }
    }
}

impl ConfigError {
    /// The error in words.
    pub fn message(&self) -> (text: String)
        ensures
            text@ == self@.message_text(),
    {
        match self {
            ConfigError::InvalidColor(e) => e.message(),
            ConfigError::MissingRequiredKey => {
                let mut out: Vec<char> = Vec::new();
                append_str(&mut out, "Missing 'tab' key in TOML config");
                assert(out@ =~= self@.message_text());
                to_string(&out)
            },
            ConfigError::InvalidStructure(reason) => {
                let mut out: Vec<char> = Vec::new();
                append_str(&mut out, "Failed to parse TOML: ");
                append_str(&mut out, reason.as_str());
                assert(out@ =~= self@.message_text());
                to_string(&out)
            },
            ConfigError::Io { path, reason } => {
                let mut out: Vec<char> = Vec::new();
                append_str(&mut out, "Failed to read config file: ");
                append_str(&mut out, reason.as_str());
                assert(out@ =~= self@.message_text());
                to_string(&out)
            },
        }
    }
}

/// A resolution with its strings as sequences of characters.
pub open spec fn plan_view(r: Result<ColorPlan, ConfigError>) -> Result<
    ColorPlanView,
    ConfigErrorView,
> {
    match r {
        Ok(plan) => Ok(plan@),
        Err(e) => Err(e@),
    }
}

// ---------------------------------------------------------------------------
// The form of a marker file's content
// ---------------------------------------------------------------------------

/// The form of a marker file's content.
#[derive(Debug, Clone, Copy, PartialEq, Eq, Structural)]
pub enum ConfigFormat {
    /// A color literal.
    SimpleColor,
    /// Key-value pairs.
    Toml,
    /// The word `auto`.
    Auto,
}

/// The form of a content: `Auto` where it trims to the word `auto`, `Toml`
/// where it holds an `=`, and else `SimpleColor`.
pub open spec fn format_of(content: Seq<char>) -> ConfigFormat {
    if trim(content) == "auto"@ {
        ConfigFormat::Auto
    } else if trim(content).contains('=') {
        ConfigFormat::Toml
    } else {
        ConfigFormat::SimpleColor
    }
}

/// Tells the form of a marker file's content from the content alone.
pub fn detect_format(content: &str) -> (format: ConfigFormat)
    ensures
        format == format_of(content@),
{
    let v = to_chars(content);
    assert(v@.subrange(0, v.len() as int) == v@);
    let (a, b) = trim_bounds(&v, 0, v.len());
    let trimmed = crate::text::copy_range(&v, a, b);
    if equals_str(&trimmed, "auto") {
        return ConfigFormat::Auto;
    }
    assert(trimmed@.subrange(0, trimmed.len() as int) == trimmed@);
    let k = find_char(&trimmed, 0, trimmed.len(), '=');
    proof {
        lemma_first_index(trimmed@, '=');
    }
    if k < trimmed.len() {
        ConfigFormat::Toml
    } else {
        ConfigFormat::SimpleColor
    }
}

// ---------------------------------------------------------------------------
// Resolving content
// ---------------------------------------------------------------------------

/// The color that a literal denotes: an error of its own for a literal with
/// a character outside ASCII, and else what the parser makes of the
/// normalized literal, as a color without alpha or as an error.
pub open spec fn parsed_color(literal: Seq<char>) -> Result<RGB, (Seq<char>, Seq<char>)> {
    literal_color(literal)
}

/// The plan of a color literal: the literal's color for the tab, and a
/// derived background.
pub open spec fn simple_color_plan(content: Seq<char>) -> Result<ColorPlanView, ConfigErrorView> {
    match parsed_color(content) {
        Ok(tab) => Ok(
            ColorPlanView { tab: TabPlanView::Fixed(tab), background: BackgroundPlan::Derived },
        ),
        Err((text, reason)) => Err(ConfigErrorView::InvalidColor { text, reason }),
    }
}

/// The plan of key-value content, given the strings found under `tab` and
/// `background`: the tab color is required, the background is the one given
/// or else derived. The tab literal is read first.
pub open spec fn entries_plan(tab: Option<Seq<char>>, background: Option<Seq<char>>) -> Result<
    ColorPlanView,
    ConfigErrorView,
> {
    match tab {
        None => Err(ConfigErrorView::MissingRequiredKey),
        Some(tab_literal) => match parsed_color(tab_literal) {
            Err((text, reason)) => Err(ConfigErrorView::InvalidColor { text, reason }),
            Ok(tab_color) => match background {
                None => Ok(
                    ColorPlanView {
                        tab: TabPlanView::Fixed(tab_color),
                        background: BackgroundPlan::Derived,
                    },
                ),
                Some(background_literal) => match parsed_color(background_literal) {
                    Err((text, reason)) => Err(ConfigErrorView::InvalidColor { text, reason }),
                    Ok(background_color) => Ok(
                        ColorPlanView {
                            tab: TabPlanView::Fixed(tab_color),
                            background: BackgroundPlan::Fixed(background_color),
                        },
                    ),
                },
            },
        },
    }
}

/// The plan of an automatic color: the tab color comes from the hash of
/// `path`, the background is derived.
pub open spec fn auto_plan(path: Seq<char>) -> ColorPlanView {
    ColorPlanView { tab: TabPlanView::Auto(path), background: BackgroundPlan::Derived }
}

/// Resolves a color literal.
pub fn parse_simple_color(content: &str) -> (result: Result<ColorPlan, ConfigError>)
    ensures
        plan_view(result) == simple_color_plan(content@),
{
    match parse_color(content) {
        Ok(tab) => Ok(ColorPlan { tab: TabPlan::Fixed(tab), background: BackgroundPlan::Derived }),
        Err(e) => Err(ConfigError::InvalidColor(e)),
    }
}

/// Resolves key-value content from the strings found under `tab` and
/// `background`.
pub fn plan_from_entries(tab: Option<&str>, background: Option<&str>) -> (result: Result<
    ColorPlan,
    ConfigError,
>)
    ensures
        plan_view(result) == entries_plan(
            match tab {
                Some(s) => Some(s@),
                None => None,
            },
            match background {
                Some(s) => Some(s@),
                None => None,
            },
        ),
{
    let tab_literal = match tab {
        Some(s) => s,
        None => {
            return Err(ConfigError::MissingRequiredKey);
        },
    };
    let tab_color = match parse_color(tab_literal) {
        Ok(c) => c,
        Err(e) => {
            return Err(ConfigError::InvalidColor(e));
        },
    };
    let background_plan = match background {
        Some(s) => match parse_color(s) {
            Ok(c) => BackgroundPlan::Fixed(c),
            Err(e) => {
                return Err(ConfigError::InvalidColor(e));
            },
        },
        None => BackgroundPlan::Derived,
    };
    Ok(ColorPlan { tab: TabPlan::Fixed(tab_color), background: background_plan })
}

/// The plan of an automatic color seeded by `path`.
pub fn parse_auto(path: &str) -> (plan: ColorPlan)
    ensures
        plan@ == auto_plan(path@),
{
    ColorPlan { tab: TabPlan::Auto(path.to_owned()), background: BackgroundPlan::Derived }
}

// ---------------------------------------------------------------------------
// Key-value content
// ---------------------------------------------------------------------------

/// `toml::map::Map`, the type of a document's table. Nothing of its inside
/// is known here; what it holds is spoken of through `table_strings`.
#[verifier::external_type_specification]
#[verifier::external_body]
#[verifier::reject_recursive_types(K)]
#[verifier::reject_recursive_types(V)]
pub struct ExTomlMap<K, V>(toml::map::Map<K, V>);

/// `toml::Value`, the type of a table's values. Nothing of its inside is
/// known here.
#[verifier::external_type_specification]
#[verifier::external_body]
pub struct ExTomlValue(toml::Value);

/// The entries of a table whose values are strings, by key.
pub uninterp spec fn table_strings(table: toml::map::Map<String, toml::Value>) -> Map<
    Seq<char>,
    Seq<char>,
>;

/// What parsing a text as a TOML document gives: the string entries of its
/// top-level table, or the text of the parser's error.
pub uninterp spec fn toml_document(content: Seq<char>) -> Result<
    Map<Seq<char>, Seq<char>>,
    Seq<char>,
>;

/// Parses `content` into a `toml::Table` with the table's `FromStr`. An
/// error is handed back as the text that its `Display` writes. Taken on
/// trust: the parser reads nothing but its argument, so that the string
/// entries of the table it gives, or its error, are the function
/// `toml_document` of the text.
#[verifier::external_body]
fn parse_table(content: &str) -> (outcome: Result<toml::map::Map<String, toml::Value>, String>)
    ensures
        match outcome {
            Ok(table) => toml_document(content@) == Ok::<Map<Seq<char>, Seq<char>>, Seq<char>>(
                table_strings(table),
            ),
            Err(m) => toml_document(content@) == Err::<Map<Seq<char>, Seq<char>>, Seq<char>>(m@),
        },
{
    match content.parse::<toml::Table>() {
        Ok(table) => Ok(table),
        Err(e) => Err(e.to_string()),
    }
}

/// Looks `key` up with `Map::get`. Taken on trust: the result is the
/// value's string where the table has the key and its value is a
/// `Value::String`, and `None` where the key is absent or its value is of
/// another kind.
#[verifier::external_body]
fn table_string(table: &toml::map::Map<String, toml::Value>, key: &str) -> (found: Option<String>)
    ensures
        match found {
            Some(s) => table_strings(*table).contains_key(key@) && table_strings(*table)[key@]
                == s@,
            None => !table_strings(*table).contains_key(key@),
        },
{
    match table.get(key) {
        Some(toml::Value::String(s)) => Some(s.clone()),
        _ => None,
    }
}

/// The string under `key`, if there is one.
pub open spec fn string_entry(entries: Map<Seq<char>, Seq<char>>, key: Seq<char>) -> Option<
    Seq<char>,
> {
    if entries.contains_key(key) {
        Some(entries[key])
    } else {
        None
    }
}

/// The plan of key-value content, given what parsing it gave.
pub open spec fn toml_plan(document: Result<Map<Seq<char>, Seq<char>>, Seq<char>>) -> Result<
    ColorPlanView,
    ConfigErrorView,
> {
    match document {
        Err(reason) => Err(ConfigErrorView::InvalidStructure(reason)),
        Ok(entries) => entries_plan(
            string_entry(entries, "tab"@),
            string_entry(entries, "background"@),
        ),
    }
}

/// Resolves key-value content: a document with a color literal under `tab`
/// and, if it likes, one under `background`.
pub fn parse_toml(content: &str) -> (result: Result<ColorPlan, ConfigError>)
    ensures
        plan_view(result) == toml_plan(toml_document(content@)),
{
    let table = match parse_table(content) {
        Ok(table) => table,
        Err(reason) => {
            return Err(ConfigError::InvalidStructure(reason));
        },
    };
    let tab = table_string(&table, "tab");
    let background = table_string(&table, "background");
    let tab_literal: Option<&str> = match &tab {
        Some(s) => Some(s.as_str()),
        None => None,
    };
    let background_literal: Option<&str> = match &background {
        Some(s) => Some(s.as_str()),
        None => None,
    };
    plan_from_entries(tab_literal, background_literal)
}

// ---------------------------------------------------------------------------
// Resolving sources
// ---------------------------------------------------------------------------

/// The plan of a marker file at `path` with the given content.
pub open spec fn content_plan(path: Seq<char>, content: Seq<char>) -> Result<
    ColorPlanView,
    ConfigErrorView,
> {
    match format_of(content) {
        ConfigFormat::SimpleColor => simple_color_plan(content),
        ConfigFormat::Toml => toml_plan(toml_document(content)),
        ConfigFormat::Auto => Ok(auto_plan(path)),
    }
}

/// What reading a file gave: its content, or the reason why it could not be
/// read.
pub open spec fn read_view(read: Result<String, String>) -> Result<Seq<char>, Seq<char>> {
    match read {
        Ok(content) => Ok(content@),
        Err(reason) => Err(reason@),
    }
}

/// The plan of a marker file at `path`, given what reading it gave.
pub open spec fn file_plan(path: Seq<char>, read: Result<Seq<char>, Seq<char>>) -> Result<
    ColorPlanView,
    ConfigErrorView,
> {
    match read {
        Ok(content) => content_plan(path, content),
        Err(reason) => Err(ConfigErrorView::Io { path, reason }),
    }
}

/// The plan of a source, given what reading its marker file gave. The
/// trigger sources have no file: their color is automatic, seeded by the
/// directory.
pub open spec fn source_plan(
    source: ConfigSourceView,
    read: Result<Seq<char>, Seq<char>>,
) -> Result<ColorPlanView, ConfigErrorView> {
    match source {
        ConfigSourceView::Termtint(path) => file_plan(path, read),
        ConfigSourceView::TriggerFile(dir) => Ok(auto_plan(dir)),
        ConfigSourceView::TriggerPath(dir) => Ok(auto_plan(dir)),
    }
}

/// Resolves the marker file at `path`. `read` is what reading the file gave:
/// its content, or the reason why it could not be read. The content's form
/// decides how it is resolved; a file that could not be read resolves to no
/// colors.
pub fn parse_config(path: &str, read: &Result<String, String>) -> (result: Result<
    ColorPlan,
    ConfigError,
>)
    ensures
        plan_view(result) == file_plan(path@, read_view(*read)),
{
    match read {
        Err(reason) => Err(ConfigError::Io { path: path.to_owned(), reason: reason.clone() }),
        Ok(content) => match detect_format(content.as_str()) {
            ConfigFormat::SimpleColor => parse_simple_color(content.as_str()),
            ConfigFormat::Toml => parse_toml(content.as_str()),
            ConfigFormat::Auto => Ok(parse_auto(path)),
        },
    }
}

/// Resolves a source. `read` is what reading the marker file gave, and is
/// looked at for a marker file only.
pub fn parse_config_source(source: &ConfigSource, read: &Result<String, String>) -> (result:
    Result<ColorPlan, ConfigError>)
    ensures
        plan_view(result) == source_plan(source@, read_view(*read)),
{
    match source {
        ConfigSource::Termtint(path) => parse_config(path.as_str(), read),
        ConfigSource::TriggerFile(dir) => Ok(parse_auto(dir.as_str())),
        ConfigSource::TriggerPath(dir) => Ok(parse_auto(dir.as_str())),
    }
}

} // verus!
