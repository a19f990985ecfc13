//! Colors with three 8-bit channels: how they are written, and how color
//! literals are read.

use crate::text::{
    append_str, copy_range, decimal, push_decimal, to_chars, to_string, trim, trim_bounds,
};
use vstd::prelude::*;
use vstd::utf8::is_ascii_chars;

verus! {

/// A color with three 8-bit channels.
#[derive(Debug, Clone, Copy, PartialEq, Eq, Structural)]
pub struct RGB {
    pub r: u8,
    pub g: u8,
    pub b: u8,
}

/// The tab color and the background color that belong together.
#[derive(Debug, Clone, Copy, PartialEq, Eq, Structural)]
pub struct ColorConfig {
    pub tab: RGB,
    pub background: RGB,
}

/// The notation in which colors are shown.
#[derive(Debug, Clone, Copy, PartialEq, Eq, Structural)]
pub enum ColorFormat {
    Hex,
    Hsl,
    Rgb,
}

impl Default for ColorFormat {
    fn default() -> (format: ColorFormat)
        ensures
            format == ColorFormat::Hex,
    {
        ColorFormat::Hex
    }
}

/// The notation that a lower-case name stands for.
pub open spec fn format_named(name: Seq<char>) -> Option<ColorFormat> {
    if name == "hsl"@ {
        Some(ColorFormat::Hsl)
    } else if name == "rgb"@ {
        Some(ColorFormat::Rgb)
    } else if name == "hex"@ {
        Some(ColorFormat::Hex)
    } else {
        None
    }
}

/// What `str::to_lowercase` makes of a text.
pub uninterp spec fn lowercase(s: Seq<char>) -> Seq<char>;

/// The lower-case form of `s`, by `str::to_lowercase`. Taken on trust: the
/// result is a function of the text alone, named `lowercase`.
#[verifier::external_body]
fn to_lowercase(s: &str) -> (lower: String)
    ensures
        lower@ == lowercase(s@),
{
    s.to_lowercase()
}

impl ColorFormat {
    /// The notation that a name in lower case stands for: one of `hsl`,
    /// `rgb` and `hex`.
    pub fn from_lowercase_name(name: &str) -> (format: Option<ColorFormat>)
        ensures
            format == format_named(name@),
    {
        let v = to_chars(name);
        if crate::text::equals_str(&v, "hsl") {
            Some(ColorFormat::Hsl)
        } else if crate::text::equals_str(&v, "rgb") {
            Some(ColorFormat::Rgb)
        } else if crate::text::equals_str(&v, "hex") {
            Some(ColorFormat::Hex)
        } else {
            None
        }
    }

    /// The notation that a name stands for, in whatever case it is written.
    /// A name that stands for none gives `None`.
    pub fn from_name(name: &str) -> (format: Option<ColorFormat>)
        ensures
            format == format_named(lowercase(name@)),
    {
        let lower = to_lowercase(name);
        ColorFormat::from_lowercase_name(lower.as_str())
    }
}

// ---------------------------------------------------------------------------
// Writing colors
// ---------------------------------------------------------------------------

/// The lower-case character of a hexadecimal digit.
pub open spec fn hex_digit_char(d: int) -> char {
    if d == 0 {
        '0'
    } else if d == 1 {
        '1'
    } else if d == 2 {
        '2'
    } else if d == 3 {
        '3'
    } else if d == 4 {
        '4'
    } else if d == 5 {
        '5'
    } else if d == 6 {
        '6'
    } else if d == 7 {
        '7'
    } else if d == 8 {
        '8'
    } else if d == 9 {
        '9'
    } else if d == 10 {
        'a'
    } else if d == 11 {
        'b'
    } else if d == 12 {
        'c'
    } else if d == 13 {
        'd'
    } else if d == 14 {
        'e'
    } else {
        'f'
    }
}

/// A channel as two lower-case hexadecimal digits.
pub open spec fn hex_pair(x: u8) -> Seq<char> {
    seq![hex_digit_char(x as int / 16), hex_digit_char(x as int % 16)]
}

fn hex_digit_to_char(d: u8) -> (c: char)
    requires
        d < 16,
    ensures
        c == hex_digit_char(d as int),
{
    if d == 0 {
        '0'
    } else if d == 1 {
        '1'
    } else if d == 2 {
        '2'
    } else if d == 3 {
        '3'
    } else if d == 4 {
        '4'
    } else if d == 5 {
        '5'
    } else if d == 6 {
        '6'
    } else if d == 7 {
        '7'
    } else if d == 8 {
        '8'
    } else if d == 9 {
        '9'
    } else if d == 10 {
        'a'
    } else if d == 11 {
        'b'
    } else if d == 12 {
        'c'
    } else if d == 13 {
        'd'
    } else if d == 14 {
        'e'
    } else {
        'f'
    }
}

/// Appends a channel as two lower-case hexadecimal digits.
pub fn push_hex_pair(out: &mut Vec<char>, x: u8)
    ensures
        final(out)@ == old(out)@ + hex_pair(x),
{
    out.push(hex_digit_to_char(x / 16));
    out.push(hex_digit_to_char(x % 16));
    assert(out@ =~= old(out)@ + hex_pair(x));
}

impl RGB {
    /// The color in hexadecimal notation: `#`, then two lower-case digits for
    /// each of red, green and blue.
    pub open spec fn hex_text(self) -> Seq<char> {
        seq!['#'] + hex_pair(self.r) + hex_pair(self.g) + hex_pair(self.b)
    }

    /// The color in functional notation: `rgb(r, g, b)` with decimal channels.
    pub open spec fn rgb_text(self) -> Seq<char> {
        "rgb("@ + decimal(self.r as nat) + ", "@ + decimal(self.g as nat) + ", "@ + decimal(
            self.b as nat,
        ) + ")"@
    }

    /// Two spaces on a background of this color, as terminals with 24-bit
    /// color show them.
    pub open spec fn color_block_text(self) -> Seq<char> {
        "\x1b[48;2;"@ + decimal(self.r as nat) + ";"@ + decimal(self.g as nat) + ";"@ + decimal(
            self.b as nat,
        ) + "m  \x1b[0m"@
    }

    fn hex_chars(&self) -> (out: Vec<char>)
        ensures
            out@ == self.hex_text(),
    {
        let mut out: Vec<char> = Vec::new();
        out.push('#');
        push_hex_pair(&mut out, self.r);
        push_hex_pair(&mut out, self.g);
        push_hex_pair(&mut out, self.b);
        assert(out@ =~= self.hex_text());
        out
    }

    /// The color in hexadecimal notation.
    pub fn to_hex_string(&self) -> (text: String)
        ensures
            text@ == self.hex_text(),
    {
        let out = self.hex_chars();
        to_string(&out)
    }

    /// The color in functional notation.
    pub fn to_rgb_string(&self) -> (text: String)
        ensures
            text@ == self.rgb_text(),
    {
        let mut out: Vec<char> = Vec::new();
        append_str(&mut out, "rgb(");
        push_decimal(&mut out, self.r as u64);
        append_str(&mut out, ", ");
        push_decimal(&mut out, self.g as u64);
        append_str(&mut out, ", ");
        push_decimal(&mut out, self.b as u64);
        append_str(&mut out, ")");
        assert(out@ =~= self.rgb_text());
        to_string(&out)
    }

    /// The color in the given notation. The hexadecimal and the functional
    /// notation are written here; the hue, saturation and lightness of a
    /// color are not whole numbers, and for `Hsl` the result is `None`.
    pub fn format_as(&self, format: ColorFormat) -> (text: Option<String>)
        ensures
            match format {
                ColorFormat::Hex => text matches Some(t) && t@ == self.hex_text(),
                ColorFormat::Rgb => text matches Some(t) && t@ == self.rgb_text(),
                ColorFormat::Hsl => text is None,
            },
    {
        match format {
            ColorFormat::Hex => Some(self.to_hex_string()),
            ColorFormat::Rgb => Some(self.to_rgb_string()),
            ColorFormat::Hsl => None,
        }
    }

    /// Two spaces on a background of this color.
    pub fn as_color_block(&self) -> (text: String)
        ensures
            text@ == self.color_block_text(),
    {
        let mut out: Vec<char> = Vec::new();
        append_str(&mut out, "\x1b[48;2;");
        push_decimal(&mut out, self.r as u64);
        append_str(&mut out, ";");
        push_decimal(&mut out, self.g as u64);
        append_str(&mut out, ";");
        push_decimal(&mut out, self.b as u64);
        append_str(&mut out, "m  \x1b[0m");
        assert(out@ =~= self.color_block_text());
        to_string(&out)
    }
}

// ---------------------------------------------------------------------------
// Reading color literals
// ---------------------------------------------------------------------------

/// A color literal that could not be read.
#[derive(Debug, Clone, PartialEq, Eq)]
pub struct InvalidColor {
    /// The literal, trimmed.
    pub text: String,
    /// What the parser found wrong with it.
    pub reason: String,
}

impl InvalidColor {
    /// The error in words: the literal in quotes, then the reason.
    pub open spec fn message_text(self) -> Seq<char> {
        "Invalid color '"@ + self.text@ + "': "@ + self.reason@
    }

    /// The error in words.
    pub fn message(&self) -> (text: String)
        ensures
            text@ == self.message_text(),
    {
        let mut out: Vec<char> = Vec::new();
        append_str(&mut out, "Invalid color '");
        append_str(&mut out, self.text.as_str());
        append_str(&mut out, "': ");
        append_str(&mut out, self.reason.as_str());
        assert(out@ =~= self.message_text());
        to_string(&out)
    }
}

/// Whether `c` is a hexadecimal digit, of either case.
pub open spec fn is_hex_digit(c: char) -> bool {
    ('0' <= c <= '9') || ('a' <= c <= 'f') || ('A' <= c <= 'F')
}

/// Whether `s` is six hexadecimal digits and nothing else.
pub open spec fn is_bare_hex(s: Seq<char>) -> bool {
    s.len() == 6 && forall|i: int| 0 <= i < s.len() ==> is_hex_digit(#[trigger] s[i])
}

/// The literal as it is handed to the parser: trimmed, and with a `#` put
/// before six bare hexadecimal digits.
pub open spec fn normalized_literal(s: Seq<char>) -> Seq<char> {
    let t = trim(s);
    if is_bare_hex(t) {
        seq!['#'] + t
    } else {
        t
    }
}

/// What `csscolorparser::parse` makes of a text: on success the red, green,
/// blue and alpha channels that `Color::to_rgba8` gives for the parsed color,
/// and else the text of its error.
pub uninterp spec fn css_color(text: Seq<char>) -> Result<(u8, u8, u8, u8), Seq<char>>;

/// Calls `csscolorparser::parse` on `text`. A parsed color is handed back as
/// the four 8-bit channels of `Color::to_rgba8`, an error as the text that
/// its `Display` writes. The text has to be ASCII: the parser cuts unit
/// names off the end of a parameter by counting bytes, and on other text a
/// cut can fall inside a character, where it does not return. Taken on
/// trust: on ASCII text the parser returns, and it reads nothing but its
/// argument, so that its outcome is the function `css_color` of the text.
/// Nothing is claimed of which texts it accepts.
#[verifier::external_body]
fn css_parse(text: &str) -> (outcome: Result<(u8, u8, u8, u8), String>)
    requires
        is_ascii_chars(text@),
    ensures
        match outcome {
            Ok(c) => css_color(text@) == Ok::<(u8, u8, u8, u8), Seq<char>>(c),
            Err(m) => css_color(text@) == Err::<(u8, u8, u8, u8), Seq<char>>(m@),
        },
{
    match csscolorparser::parse(text) {
        Ok(color) => {
            let [r, g, b, a] = color.to_rgba8();
            Ok((r, g, b, a))
        },
        Err(e) => Err(e.to_string()),
    }
}

/// The literal as it is handed to the parser.
pub fn normalize_literal(s: &str) -> (text: String)
    ensures
        text@ == normalized_literal(s@),
{
    let v = to_chars(s);
    assert(v@.subrange(0, v.len() as int) == v@);
    let (a, b) = trim_bounds(&v, 0, v.len());
    let ghost t = v@.subrange(a as int, b as int);
    let mut bare = b - a == 6;
    let mut i: usize = a;
    while bare && i < b
        invariant
            a <= i <= b <= v.len(),
            t == v@.subrange(a as int, b as int),
            bare ==> t.len() == 6 && forall|j: int| 0 <= j < i - a ==> is_hex_digit(#[trigger] t[j]),
            !bare ==> !is_bare_hex(t),
        decreases b - i + if bare { 1int } else { 0int },
    {
        let c = v[i];
        assert(c == t[i - a]);
        if !(('0' <= c && c <= '9') || ('a' <= c && c <= 'f') || ('A' <= c && c <= 'F')) {
            bare = false;
        } else {
            i += 1;
        }
    }
    let mut out: Vec<char> = Vec::new();
    if bare {
        out.push('#');
    }
    let body = copy_range(&v, a, b);
    crate::text::append_chars(&mut out, &body);
    assert(out@ =~= normalized_literal(s@));
    to_string(&out)
}

/// The color that a parser's outcome stands for: the first three channels of
/// a parsed color, or the error with the trimmed literal and the parser's
/// reason.
pub open spec fn color_of_outcome(
    literal: Seq<char>,
    outcome: Result<(u8, u8, u8, u8), Seq<char>>,
) -> Result<RGB, (Seq<char>, Seq<char>)> {
    match outcome {
        Ok(c) => Ok(RGB { r: c.0, g: c.1, b: c.2 }),
        Err(reason) => Err((trim(literal), reason)),
    }
}

/// Whether `result` is the color or the error that `expected` describes.
pub open spec fn color_result_is(
    result: Result<RGB, InvalidColor>,
    expected: Result<RGB, (Seq<char>, Seq<char>)>,
) -> bool {
    match result {
        Ok(rgb) => expected == Ok::<RGB, (Seq<char>, Seq<char>)>(rgb),
        Err(e) => expected == Err::<RGB, (Seq<char>, Seq<char>)>((e.text@, e.reason@)),
    }
}

/// Turns the parser's outcome for a literal into a color: the alpha channel
/// is dropped. A failure keeps the trimmed literal and the parser's reason.
pub fn color_from_outcome(literal: &str, outcome: Result<(u8, u8, u8, u8), String>) -> (result:
    Result<RGB, InvalidColor>)
    ensures
        color_result_is(
            result,
            color_of_outcome(
                literal@,
                match outcome {
                    Ok(c) => Ok(c),
                    Err(m) => Err(m@),
                },
            ),
        ),
{
    match outcome {
        Ok(c) => Ok(RGB { r: c.0, g: c.1, b: c.2 }),
        Err(reason) => {
            let v = to_chars(literal);
            assert(v@.subrange(0, v.len() as int) == v@);
            let (a, b) = trim_bounds(&v, 0, v.len());
            let text = crate::text::range_to_string(&v, a, b);
            Err(InvalidColor { text, reason })
        },
    }
}

/// Why a literal with a character outside ASCII is no color.
pub open spec fn not_ascii_reason() -> Seq<char> {
    "character outside ASCII"@
}

/// The color that a literal denotes. Every notation of a color is ASCII, so
/// a literal that, once normalized, holds any other character is an error
/// of its own, with the trimmed literal and `not_ascii_reason`. Every other
/// literal denotes what the parser makes of it after `normalized_literal`:
/// the color it finds, without its alpha channel, or its error.
pub open spec fn literal_color(literal: Seq<char>) -> Result<RGB, (Seq<char>, Seq<char>)> {
    if is_ascii_chars(normalized_literal(literal)) {
        color_of_outcome(literal, css_color(normalized_literal(literal)))
    } else {
        Err((trim(literal), not_ascii_reason()))
    }
}

/// Reads a color literal: hexadecimal with three or six digits after `#`,
/// six bare hexadecimal digits, `rgb(..)`, `hsl(..)`, or a color name.
/// Whitespace around the literal is ignored. A literal that holds a
/// character outside ASCII is refused here; every other literal is read by
/// `csscolorparser`.
pub fn parse_color(s: &str) -> (result: Result<RGB, InvalidColor>)
    ensures
        color_result_is(result, literal_color(s@)),
{
    let text = normalize_literal(s);
    if text.as_str().is_ascii() {
        let outcome = css_parse(text.as_str());
        color_from_outcome(s, outcome)
    } else {
        color_from_outcome(s, Err("character outside ASCII".to_owned()))
    }
}

} // verus!
