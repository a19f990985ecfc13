//! The escape sequences that set and reset the colors of a terminal tab
//! and of its background. The functions here write nothing: they hand back
//! the text to send to the terminal.

use crate::color::{hex_pair, push_hex_pair, ColorConfig, RGB};
use crate::text::{append_chars, append_str, decimal, push_decimal, to_chars, to_string};
use vstd::prelude::*;

verus! {

/// The sequence that sets the tab color: one command for each channel.
pub open spec fn tab_color_sequence(rgb: RGB) -> Seq<char> {
    "\x1b]6;1;bg;red;brightness;"@ + decimal(rgb.r as nat) + "\x07"@
        + "\x1b]6;1;bg;green;brightness;"@ + decimal(rgb.g as nat) + "\x07"@
        + "\x1b]6;1;bg;blue;brightness;"@ + decimal(rgb.b as nat) + "\x07"@
}

/// The sequence that sets the background color, its channels in hexadecimal.
pub open spec fn background_color_sequence(rgb: RGB) -> Seq<char> {
    "\x1b]11;rgb:"@ + hex_pair(rgb.r) + "/"@ + hex_pair(rgb.g) + "/"@ + hex_pair(rgb.b)
        + "\x07"@
}

/// The sequence that gives the tab its default color back.
pub open spec fn tab_reset_sequence() -> Seq<char> {
    "\x1b]6;1;bg;*;default\x07"@
}

/// The sequence that gives the background its default color back.
pub open spec fn background_reset_sequence() -> Seq<char> {
    "\x1b]111\x07"@
}

fn push_tab_color(out: &mut Vec<char>, rgb: RGB)
    ensures
        final(out)@ == old(out)@ + tab_color_sequence(rgb),
{
    append_str(out, "\x1b]6;1;bg;red;brightness;");
    push_decimal(out, rgb.r as u64);
    append_str(out, "\x07");
    append_str(out, "\x1b]6;1;bg;green;brightness;");
    push_decimal(out, rgb.g as u64);
    append_str(out, "\x07");
    append_str(out, "\x1b]6;1;bg;blue;brightness;");
    push_decimal(out, rgb.b as u64);
    append_str(out, "\x07");
    assert(out@ =~= old(out)@ + tab_color_sequence(rgb));
}

fn push_background_color(out: &mut Vec<char>, rgb: RGB)
    ensures
        final(out)@ == old(out)@ + background_color_sequence(rgb),
{
    append_str(out, "\x1b]11;rgb:");
    push_hex_pair(out, rgb.r);
    append_str(out, "/");
    push_hex_pair(out, rgb.g);
    append_str(out, "/");
    push_hex_pair(out, rgb.b);
    append_str(out, "\x07");
    assert(out@ =~= old(out)@ + background_color_sequence(rgb));
}

/// The sequence that sets the tab color.
pub fn set_tab_color(rgb: RGB) -> (sequence: String)
    ensures
        sequence@ == tab_color_sequence(rgb),
{
    let mut out: Vec<char> = Vec::new();
    push_tab_color(&mut out, rgb);
    assert(out@ =~= tab_color_sequence(rgb));
    to_string(&out)
}

/// The sequence that sets the background color.
pub fn set_background_color(rgb: RGB) -> (sequence: String)
    ensures
        sequence@ == background_color_sequence(rgb),
{
    let mut out: Vec<char> = Vec::new();
    push_background_color(&mut out, rgb);
    assert(out@ =~= background_color_sequence(rgb));
    to_string(&out)
}

/// The sequence that gives the tab its default color back.
pub fn reset_tab_color() -> (sequence: String)
    ensures
        sequence@ == tab_reset_sequence(),
{
    "\x1b]6;1;bg;*;default\x07".to_owned()
}

/// The sequence that gives the background its default color back.
pub fn reset_background_color() -> (sequence: String)
    ensures
        sequence@ == background_reset_sequence(),
{
    "\x1b]111\x07".to_owned()
}

/// The sequences that set the tab color and then the background color.
pub fn apply_colors(config: &ColorConfig) -> (sequence: String)
    ensures
        sequence@ == tab_color_sequence(config.tab) + background_color_sequence(config.background),
{
    let mut out: Vec<char> = Vec::new();
    push_tab_color(&mut out, config.tab);
    push_background_color(&mut out, config.background);
    assert(out@ =~= tab_color_sequence(config.tab) + background_color_sequence(
        config.background,
    ));
    to_string(&out)
}

/// The sequences that reset the tab color and then the background color.
pub fn reset_colors() -> (sequence: String)
    ensures
        sequence@ == tab_reset_sequence() + background_reset_sequence(),
{
    let mut out: Vec<char> = Vec::new();
    append_str(&mut out, "\x1b]6;1;bg;*;default\x07");
    append_str(&mut out, "\x1b]111\x07");
    to_string(&out)
}

/// The two reset sequences, that of the tab first.
pub fn get_reset_sequences() -> (sequences: (String, String))
    ensures
        sequences.0@ == tab_reset_sequence(),
        sequences.1@ == background_reset_sequence(),
{
    (reset_tab_color(), reset_background_color())
}

/// A character as it is shown to a reader: the escape and the bell
/// character spelled out, any other as it is.
pub open spec fn displayed_char(c: char) -> Seq<char> {
    if c == '\x1b' {
        "\\x1b"@
    } else if c == '\x07' {
        "\\x07"@
    } else {
        seq![c]
    }
}

/// A sequence as it is shown to a reader.
pub open spec fn displayed(s: Seq<char>) -> Seq<char>
    decreases s.len(),
{
    if s.len() == 0 {
        Seq::empty()
    } else {
        displayed(s.drop_last()) + displayed_char(s.last())
    }
}

/// Spells out the escape and bell characters of a sequence, so that it can
/// be shown instead of obeyed.
pub fn escape_for_display(seq: &str) -> (text: String)
    ensures
        text@ == displayed(seq@),
{
    let v = to_chars(seq);
    let escape = to_chars("\\x1b");
    let bell = to_chars("\\x07");
    let mut out: Vec<char> = Vec::new();
    let mut i: usize = 0;
    while i < v.len()
        invariant
            i <= v.len(),
            escape@ == "\\x1b"@,
            bell@ == "\\x07"@,
            out@ == displayed(v@.take(i as int)),
        decreases v.len() - i,
    {
        assert(v@.take(i + 1).drop_last() == v@.take(i as int));
        assert(v@.take(i + 1).last() == v@[i as int]);
        let c = v[i];
        if c == '\x1b' {
            append_chars(&mut out, &escape);
        } else if c == '\x07' {
            append_chars(&mut out, &bell);
        } else {
            out.push(c);
            assert(out@ =~= displayed(v@.take(i as int)) + seq![c]);
        }
        i += 1;
    }
    assert(v@.take(v.len() as int) == v@);
    to_string(&out)
}

} // verus!
