//! The text of the user's configuration file: the settings it knows, which of
//! them a given file mentions, and how a file is brought up to date by adding
//! the missing ones as commented-out defaults.

use crate::text::{
    append_str, copy_range, find_char, first_index, join, join_lines, line_views, lines_of, range_equals,
    skip_whitespace, split_lines, to_chars, to_string, trim, trim_bounds, trim_start,
};
use vstd::prelude::*;

verus! {

// ---------------------------------------------------------------------------
// The known settings
// ---------------------------------------------------------------------------

/// How many settings the configuration file knows.
pub const FIELD_COUNT: usize = 10;

/// The name of the `k`-th setting.
pub open spec fn field_name(k: int) -> Seq<char> {
    if k == 0 {
        "background_lightness"@
    } else if k == 1 {
        "background_saturation"@
    } else if k == 2 {
        "trigger_files"@
    } else if k == 3 {
        "trigger_paths"@
    } else if k == 4 {
        "color_format"@
    } else if k == 5 {
        "hue_min"@
    } else if k == 6 {
        "hue_max"@
    } else if k == 7 {
        "saturation_min"@
    } else if k == 8 {
        "saturation_max"@
    } else {
        "lightness"@
    }
}

/// Whether the `k`-th setting belongs under the `[auto]` header.
pub open spec fn field_in_auto_section(k: int) -> bool {
    k >= 5
}

/// The default of the `k`-th setting, as it is written in a file.
pub open spec fn field_default(k: int) -> Seq<char> {
    if k == 0 {
        "0.18"@
    } else if k == 1 {
        "1.00"@
    } else if k == 2 {
        "[]"@
    } else if k == 3 {
        "[]"@
    } else if k == 4 {
        "\"hex\""@
    } else if k == 5 {
        "0.0"@
    } else if k == 6 {
        "360.0"@
    } else if k == 7 {
        "0.7"@
    } else if k == 8 {
        "0.9"@
    } else {
        "0.55"@
    }
}

/// The lines that explain the `k`-th setting. Two settings are explained
/// together with the one before them and have no lines of their own.
pub open spec fn field_explanation(k: int) -> Seq<Seq<char>> {
    if k == 0 {
        seq!["# Fixed lightness for darkened backgrounds (0.0 to 1.0)"@]
    } else if k == 1 {
        seq![
            "# Saturation multiplier for backgrounds (0.0 to 1.0)"@,
            "# 1.0 = preserve original saturation, 0.0 = grayscale"@,
        ]
    } else if k == 2 {
        seq![
            "# Files that trigger automatic color generation when found"@,
            "# Examples: [\"Cargo.toml\", \"package.json\", \"go.mod\", \"pyproject.toml\"]"@,
        ]
    } else if k == 3 {
        seq![
            "# Path globs that trigger automatic color generation"@,
            "# Directories matching these patterns are treated as having 'auto' in .termtint"@,
            "# Supports ~ for home directory. Example: [\"~/Code/*\", \"~/Projects/*\"]"@,
        ]
    } else if k == 4 {
        seq!["# Color format for display: \"hex\", \"hsl\", or \"rgb\""@]
    } else if k == 5 {
        seq!["# Hue range in degrees (0.0 to 360.0)"@]
    } else if k == 6 {
        Seq::empty()
    } else if k == 7 {
        seq!["# Saturation range (0.0 to 1.0)"@]
    } else if k == 8 {
        Seq::empty()
    } else {
        seq!["# Lightness for generated tab colors (0.0 to 1.0)"@]
    }
}

/// The line that assigns its default to the `k`-th setting, commented out:
/// `# name = default`.
pub open spec fn commented_default(k: int) -> Seq<char> {
    seq!['#', ' '] + field_name(k) + seq![' ', '=', ' '] + field_default(k)
}

/// The lines that stand for the `k`-th setting where a file lacks it: its
/// explanation and its default, all commented out.
pub open spec fn field_template(k: int) -> Seq<Seq<char>> {
    field_explanation(k).push(commented_default(k))
}

/// The line that assigns its default to the `k`-th setting:
/// `name = default`.
pub open spec fn active_default(k: int) -> Seq<char> {
    field_name(k) + seq![' ', '=', ' '] + field_default(k)
}

/// The lines of the `k`-th setting in the default file: its explanation, and
/// its default.
pub open spec fn field_setting(k: int) -> Seq<Seq<char>> {
    field_explanation(k).push(active_default(k))
}

/// The name of the `k`-th setting.
pub fn name_of_field(k: usize) -> (name: &'static str)
    ensures
        name@ == field_name(k as int),
{
    if k == 0 {
        "background_lightness"
    } else if k == 1 {
        "background_saturation"
    } else if k == 2 {
        "trigger_files"
    } else if k == 3 {
        "trigger_paths"
    } else if k == 4 {
        "color_format"
    } else if k == 5 {
        "hue_min"
    } else if k == 6 {
        "hue_max"
    } else if k == 7 {
        "saturation_min"
    } else if k == 8 {
        "saturation_max"
    } else {
        "lightness"
    }
}

/// The default of the `k`-th setting, as it is written in a file.
pub fn default_of_field(k: usize) -> (default: &'static str)
    ensures
        default@ == field_default(k as int),
{
    if k == 0 {
        "0.18"
    } else if k == 1 {
        "1.00"
    } else if k == 2 {
        "[]"
    } else if k == 3 {
        "[]"
    } else if k == 4 {
        "\"hex\""
    } else if k == 5 {
        "0.0"
    } else if k == 6 {
        "360.0"
    } else if k == 7 {
        "0.7"
    } else if k == 8 {
        "0.9"
    } else {
        "0.55"
    }
}

/// Appends one line, given as a string, to a list of lines.
fn push_line(out: &mut Vec<Vec<char>>, line: &str)
    ensures
        line_views(final(out)@) == line_views(old(out)@).push(line@),
{
    let chars = to_chars(line);
    out.push(chars);
    assert(line_views(out@) =~= line_views(old(out)@).push(line@));
}

/// Appends the explanation of the `k`-th setting to a list of lines.
fn push_explanation(out: &mut Vec<Vec<char>>, k: usize)
    requires
        k < FIELD_COUNT,
    ensures
        line_views(final(out)@) == line_views(old(out)@) + field_explanation(k as int),
{
    if k == 0 {
        push_line(out, "# Fixed lightness for darkened backgrounds (0.0 to 1.0)");
    } else if k == 1 {
        push_line(out, "# Saturation multiplier for backgrounds (0.0 to 1.0)");
        push_line(out, "# 1.0 = preserve original saturation, 0.0 = grayscale");
    } else if k == 2 {
        push_line(out, "# Files that trigger automatic color generation when found");
        push_line(
            out,
            "# Examples: [\"Cargo.toml\", \"package.json\", \"go.mod\", \"pyproject.toml\"]",
        );
    } else if k == 3 {
        push_line(out, "# Path globs that trigger automatic color generation");
        push_line(
            out,
            "# Directories matching these patterns are treated as having 'auto' in .termtint",
        );
        push_line(
            out,
            "# Supports ~ for home directory. Example: [\"~/Code/*\", \"~/Projects/*\"]",
        );
    } else if k == 4 {
        push_line(out, "# Color format for display: \"hex\", \"hsl\", or \"rgb\"");
    } else if k == 5 {
        push_line(out, "# Hue range in degrees (0.0 to 360.0)");
    } else if k == 7 {
        push_line(out, "# Saturation range (0.0 to 1.0)");
    } else if k == 9 {
        push_line(out, "# Lightness for generated tab colors (0.0 to 1.0)");
    }
    assert(line_views(out@) =~= line_views(old(out)@) + field_explanation(k as int));
}

/// The line that assigns its default to the `k`-th setting, commented out
/// or not.
fn default_line(k: usize, commented: bool) -> (line: Vec<char>)
    requires
        k < FIELD_COUNT,
    ensures
        line@ == if commented {
            commented_default(k as int)
        } else {
            active_default(k as int)
        },
{
    let mut line: Vec<char> = Vec::new();
    if commented {
        line.push('#');
        line.push(' ');
    }
    append_str(&mut line, name_of_field(k));
    line.push(' ');
    line.push('=');
    line.push(' ');
    append_str(&mut line, default_of_field(k));
    assert(line@ =~= if commented {
        commented_default(k as int)
    } else {
        active_default(k as int)
    });
    line
}

/// Appends the template of the `k`-th setting to a list of lines.
fn push_template(out: &mut Vec<Vec<char>>, k: usize)
    requires
        k < FIELD_COUNT,
    ensures
        line_views(final(out)@) == line_views(old(out)@) + field_template(k as int),
{
    push_explanation(out, k);
    let ghost explained = out@;
    let line = default_line(k, true);
    out.push(line);
    assert(line_views(out@) =~= line_views(explained).push(commented_default(k as int)));
}

/// Appends the `k`-th setting with its explanation and its default to a
/// list of lines.
fn push_setting(out: &mut Vec<Vec<char>>, k: usize)
    requires
        k < FIELD_COUNT,
    ensures
        line_views(final(out)@) == line_views(old(out)@) + field_setting(k as int),
{
    push_explanation(out, k);
    let ghost explained = out@;
    let line = default_line(k, false);
    out.push(line);
    assert(line_views(out@) =~= line_views(explained).push(active_default(k as int)));
}

// ---------------------------------------------------------------------------
// Which settings a file mentions
// ---------------------------------------------------------------------------

/// Whether a line is the `[auto]` header.
pub open spec fn is_auto_header(line: Seq<char>) -> bool {
    trim(line) == "[auto]"@
}

/// Whether a line holds nothing but whitespace.
pub open spec fn is_blank(line: Seq<char>) -> bool {
    trim(line).len() == 0
}

/// What a line assigns, read the same whether or not the line is commented
/// out: the trimmed line, without one leading `#` and the whitespace after it.
pub open spec fn assignment_text(line: Seq<char>) -> Seq<char> {
    let t = trim(line);
    if t.len() > 0 && t[0] == '#' {
        trim_start(t.skip(1))
    } else {
        t
    }
}

/// The name that a line assigns to: what stands before the first `=`,
/// trimmed. A line without `=` assigns to nothing.
pub open spec fn assigned_name(line: Seq<char>) -> Option<Seq<char>> {
    let a = assignment_text(line);
    let k = first_index(a, '=');
    if 0 <= k < a.len() {
        Some(trim(a.take(k)))
    } else {
        None
    }
}

/// Whether some line assigns to the `k`-th setting, commented out or not.
pub open spec fn field_present(lines: Seq<Seq<char>>, k: int) -> bool {
    exists|i: int| 0 <= i < lines.len() && assigned_name(#[trigger] lines[i]) == Some(field_name(k))
}

/// The index of the last line that is the `[auto]` header.
pub open spec fn last_auto_header(lines: Seq<Seq<char>>) -> Option<int>
    decreases lines.len(),
{
    if lines.len() == 0 {
        None
    } else if is_auto_header(lines.last()) {
        Some(lines.len() - 1)
    } else {
        last_auto_header(lines.drop_last())
    }
}

pub proof fn lemma_last_auto_header(lines: Seq<Seq<char>>)
    ensures
        match last_auto_header(lines) {
            Some(i) => 0 <= i < lines.len() && is_auto_header(lines[i]) && forall|j: int|
                i < j < lines.len() ==> !is_auto_header(#[trigger] lines[j]),
            None => forall|j: int| 0 <= j < lines.len() ==> !is_auto_header(#[trigger] lines[j]),
        },
    decreases lines.len(),
{
    if lines.len() == 0 {
    } else if is_auto_header(lines.last()) {
    } else {
        lemma_last_auto_header(lines.drop_last());
        let rest = lines.drop_last();
        match last_auto_header(rest) {
            Some(i) => {
                assert(rest[i] == lines[i]);
                assert forall|j: int| i < j < lines.len() implies !is_auto_header(
                    #[trigger] lines[j],
                ) by {
                    if j < rest.len() {
                        assert(rest[j] == lines[j]);
                    }
                }
            },
            None => {
                assert forall|j: int| 0 <= j < lines.len() implies !is_auto_header(
                    #[trigger] lines[j],
                ) by {
                    if j < rest.len() {
                        assert(rest[j] == lines[j]);
                    }
                }
            },
        }
    }
}

/// What a configuration file mentions.
pub struct PresentFields {
    /// For each setting, whether some line assigns to it.
    pub found: Vec<bool>,
    /// Whether the file has an `[auto]` header.
    pub has_auto_section: bool,
    /// The index of the last line that is the `[auto]` header.
    pub auto_section_line: Option<usize>,
}

impl PresentFields {
    /// Whether this is what the given lines mention.
    pub open spec fn describes(&self, lines: Seq<Seq<char>>) -> bool {
        &&& self.found@.len() == FIELD_COUNT
        &&& forall|k: int| 0 <= k < FIELD_COUNT ==> self.found@[k] == field_present(lines, k)
        &&& self.has_auto_section == (last_auto_header(lines) is Some)
        &&& match self.auto_section_line {
            Some(i) => last_auto_header(lines) == Some(i as int),
            None => last_auto_header(lines) is None,
        }
    }
}

/// The bounds of what `line` assigns: see `assignment_text`.
fn assignment_bounds(line: &Vec<char>) -> (r: (usize, usize))
    ensures
        r.0 <= r.1 <= line.len(),
        line@.subrange(r.0 as int, r.1 as int) == assignment_text(line@),
{
    assert(line@.subrange(0, line.len() as int) == line@);
    let (a, b) = trim_bounds(line, 0, line.len());
    if a < b && line[a] == '#' {
        let c = skip_whitespace(line, a + 1, b);
        assert(line@.subrange(a as int, b as int).skip(1) == line@.subrange(a + 1, b as int));
        (c, b)
    } else {
        (a, b)
    }
}

/// The bounds of the name that `line` assigns to, if it assigns to one.
fn assigned_name_bounds(line: &Vec<char>) -> (r: Option<(usize, usize)>)
    ensures
        match r {
            Some((a, b)) => a <= b <= line.len() && assigned_name(line@) == Some(
                line@.subrange(a as int, b as int),
            ),
            None => assigned_name(line@) is None,
        },
{
    let (a, b) = assignment_bounds(line);
    let k = find_char(line, a, b, '=');
    if k < b {
        let (c, d) = trim_bounds(line, a, k);
        assert(line@.subrange(a as int, b as int).take(k - a) == line@.subrange(
            a as int,
            k as int,
        ));
        Some((c, d))
    } else {
        None
    }
}

/// Whether `line` is the `[auto]` header.
fn line_is_auto_header(line: &Vec<char>) -> (b: bool)
    ensures
        b == is_auto_header(line@),
{
    assert(line@.subrange(0, line.len() as int) == line@);
    let (a, b) = trim_bounds(line, 0, line.len());
    let header = to_chars("[auto]");
    range_equals(line, a, b, &header)
}

/// Whether `line` holds nothing but whitespace.
fn line_is_blank(line: &Vec<char>) -> (b: bool)
    ensures
        b == is_blank(line@),
{
    assert(line@.subrange(0, line.len() as int) == line@);
    let (a, b) = trim_bounds(line, 0, line.len());
    a == b
}

/// One more line is looked at: a setting is present among the first `i + 1`
/// lines where it is among the first `i`, or the `i`-th line assigns to it.
proof fn lemma_field_present_step(lines: Seq<Seq<char>>, i: int, k: int)
    requires
        0 <= i < lines.len(),
    ensures
        field_present(lines.take(i + 1), k) == (field_present(lines.take(i), k) || assigned_name(
            lines[i],
        ) == Some(field_name(k))),
{
    let more = lines.take(i + 1);
    let fewer = lines.take(i);
    if field_present(fewer, k) {
        let j = choose|j: int|
            0 <= j < fewer.len() && assigned_name(#[trigger] fewer[j]) == Some(field_name(k));
        assert(more[j] == fewer[j]);
    }
    if assigned_name(lines[i]) == Some(field_name(k)) {
        assert(more[i] == lines[i]);
    }
    if field_present(more, k) {
        let j = choose|j: int|
            0 <= j < more.len() && assigned_name(#[trigger] more[j]) == Some(field_name(k));
        if j < i {
            assert(fewer[j] == more[j]);
        } else {
            assert(more[j] == lines[i]);
        }
    }
}

/// What the given lines mention.
fn detect_in_lines(lines: &Vec<Vec<char>>) -> (present: PresentFields)
    ensures
        present.describes(line_views(lines@)),
{
    let ghost all = line_views(lines@);
    let mut found: Vec<bool> = Vec::new();
    let mut k: usize = 0;
    while k < FIELD_COUNT
        invariant
            k <= FIELD_COUNT,
            found@.len() == k,
            forall|j: int| 0 <= j < k ==> found@[j] == false,
        decreases FIELD_COUNT - k,
    {
        found.push(false);
        k += 1;
    }
    let mut auto_section_line: Option<usize> = None;
    let mut i: usize = 0;
    while i < lines.len()
        invariant
            i <= lines.len(),
            all == line_views(lines@),
            found@.len() == FIELD_COUNT,
            forall|k: int|
                0 <= k < FIELD_COUNT ==> #[trigger] found@[k] == field_present(
                    all.take(i as int),
                    k,
                ),
            match auto_section_line {
                Some(j) => last_auto_header(all.take(i as int)) == Some(j as int),
                None => last_auto_header(all.take(i as int)) is None,
            },
        decreases lines.len() - i,
    {
        let line = &lines[i];
        assert(all[i as int] == line@);
        assert(all.take(i + 1).last() == line@);
        assert(all.take(i + 1).drop_last() == all.take(i as int));
        if line_is_auto_header(line) {
            auto_section_line = Some(i);
        }
        let ghost before = found@;
        match assigned_name_bounds(line) {
            Some((a, b)) => {
                let mut k: usize = 0;
                while k < FIELD_COUNT
                    invariant
                        k <= FIELD_COUNT,
                        a <= b <= line.len(),
                        assigned_name(line@) == Some(line@.subrange(a as int, b as int)),
                        found@.len() == FIELD_COUNT,
                        before.len() == FIELD_COUNT,
                        forall|j: int|
                            0 <= j < k ==> #[trigger] found@[j] == (before[j] || assigned_name(
                                line@,
                            ) == Some(field_name(j))),
                        forall|j: int| k <= j < FIELD_COUNT ==> #[trigger] found@[j] == before[j],
                    decreases FIELD_COUNT - k,
                {
                    let name = to_chars(name_of_field(k));
                    if range_equals(line, a, b, &name) {
                        found.set(k, true);
                    }
                    k += 1;
                }
            },
            None => {},
        }
        proof {
            assert forall|k: int| 0 <= k < FIELD_COUNT implies #[trigger] found@[k]
                == field_present(all.take(i + 1), k) by {
                lemma_field_present_step(all, i as int, k);
                assert(before[k] == field_present(all.take(i as int), k));
            }
        }
        i += 1;
    }
    assert(all.take(lines.len() as int) == all);
    PresentFields { found, has_auto_section: auto_section_line.is_some(), auto_section_line }
}

/// What a configuration file mentions: for each known setting whether a line
/// assigns to it, commented out or not, and where the `[auto]` header stands.
pub fn detect_present_fields(content: &str) -> (present: PresentFields)
    ensures
        present.describes(split_lines(content@)),
{
    let chars = to_chars(content);
    let lines = lines_of(&chars);
    detect_in_lines(&lines)
}

// ---------------------------------------------------------------------------
// Bringing a file up to date
// ---------------------------------------------------------------------------

/// The settings among the first `n` that belong to one part of the file
/// (under the `[auto]` header, or above it) and that no line assigns to, in
/// ascending order.
pub open spec fn missing_fields(lines: Seq<Seq<char>>, in_auto: bool, n: int) -> Seq<int>
    decreases n,
{
    if n <= 0 {
        Seq::empty()
    } else {
        let rest = missing_fields(lines, in_auto, n - 1);
        if field_in_auto_section(n - 1) == in_auto && !field_present(lines, n - 1) {
            rest.push(n - 1)
        } else {
            rest
        }
    }
}

/// The templates of the given settings, an empty line between each two.
pub open spec fn template_block(fields: Seq<int>) -> Seq<Seq<char>>
    decreases fields.len(),
{
    if fields.len() == 0 {
        Seq::empty()
    } else if fields.len() == 1 {
        field_template(fields[0])
    } else {
        template_block(fields.drop_last()) + seq![Seq::<char>::empty()] + field_template(
            fields.last(),
        )
    }
}

/// The lines with the templates of the missing top-level settings put in:
/// before the last `[auto]` header, or at the end where there is none. An
/// empty line parts them from a line before them that is not blank, and from
/// the header after them.
pub open spec fn with_top_level_fields(lines: Seq<Seq<char>>) -> Seq<Seq<char>> {
    let fields = missing_fields(lines, false, FIELD_COUNT as int);
    let header = last_auto_header(lines);
    let at = match header {
        Some(i) => i,
        None => lines.len() as int,
    };
    let before = if at > 0 && !is_blank(lines[at - 1]) {
        seq![Seq::<char>::empty()]
    } else {
        Seq::empty()
    };
    let after = if header is Some {
        seq![Seq::<char>::empty()]
    } else {
        Seq::empty()
    };
    if fields.len() == 0 {
        lines
    } else {
        lines.take(at) + before + template_block(fields) + after + lines.skip(at)
    }
}

/// The lines with the templates of the given settings of the `[auto]` part
/// put at the end, the last template line first. Where the lines have no
/// `[auto]` header, one is opened before them, after an empty line where the
/// last line is not blank.
pub open spec fn with_auto_fields(lines: Seq<Seq<char>>, fields: Seq<int>) -> Seq<Seq<char>> {
    let parted = if lines.len() > 0 && !is_blank(lines.last()) {
        lines.push(Seq::<char>::empty())
    } else {
        lines
    };
    let opened = if last_auto_header(lines) is Some {
        lines
    } else {
        parted + seq!["# Auto color generation parameters"@, "[auto]"@]
    };
    if fields.len() == 0 {
        lines
    } else {
        opened + template_block(fields).reverse()
    }
}

/// The lines of a file brought up to date.
pub open spec fn upgraded_lines(lines: Seq<Seq<char>>) -> Seq<Seq<char>> {
    with_auto_fields(
        with_top_level_fields(lines),
        missing_fields(lines, true, FIELD_COUNT as int),
    )
}

/// The text, ended by a line feed where it was not.
pub open spec fn with_final_newline(text: Seq<char>) -> Seq<char> {
    if text.len() > 0 && text.last() == '\n' {
        text
    } else {
        text.push('\n')
    }
}

/// Whether the file mentions every known setting.
pub open spec fn is_complete(lines: Seq<Seq<char>>) -> bool {
    &&& missing_fields(lines, false, FIELD_COUNT as int).len() == 0
    &&& missing_fields(lines, true, FIELD_COUNT as int).len() == 0
}

/// A configuration file brought up to date: unchanged where it mentions
/// every setting, and else its lines with the missing settings put in as
/// commented-out defaults, joined by line feeds and ended by one.
pub open spec fn upgraded_text(content: Seq<char>) -> Seq<char> {
    let lines = split_lines(content);
    if is_complete(lines) {
        content
    } else {
        with_final_newline(join_lines(upgraded_lines(lines)))
    }
}

/// The block of templates for the missing settings of one part of the file,
/// and how many settings are missing there.
fn missing_block(found: &Vec<bool>, in_auto: bool, Ghost(lines): Ghost<Seq<Seq<char>>>) -> (r: (
    Vec<Vec<char>>,
    usize,
))
    requires
        found@.len() == FIELD_COUNT,
        forall|k: int| 0 <= k < FIELD_COUNT ==> #[trigger] found@[k] == field_present(lines, k),
    ensures
        line_views(r.0@) == template_block(missing_fields(lines, in_auto, FIELD_COUNT as int)),
        r.1 == missing_fields(lines, in_auto, FIELD_COUNT as int).len(),
{
    let mut block: Vec<Vec<char>> = Vec::new();
    let mut count: usize = 0;
    let mut k: usize = 0;
    assert(line_views(block@) =~= Seq::<Seq<char>>::empty());
    while k < FIELD_COUNT
        invariant
            k <= FIELD_COUNT,
            found@.len() == FIELD_COUNT,
            forall|j: int| 0 <= j < FIELD_COUNT ==> #[trigger] found@[j] == field_present(lines, j),
            count == missing_fields(lines, in_auto, k as int).len(),
            count <= k,
            line_views(block@) == template_block(missing_fields(lines, in_auto, k as int)),
        decreases FIELD_COUNT - k,
    {
        let ghost fields = missing_fields(lines, in_auto, k as int);
        let belongs = (k >= 5) == in_auto;
        if belongs && !found[k] {
            assert(missing_fields(lines, in_auto, k + 1) == fields.push(k as int));
            assert(fields.push(k as int).drop_last() == fields);
            if count > 0 {
                block.push(Vec::new());
                assert(line_views(block@) =~= template_block(fields) + seq![Seq::<char>::empty()]);
            }
            push_template(&mut block, k);
            count += 1;
        }
        k += 1;
    }
    (block, count)
}

/// Appends copies of `src[lo..hi]` to `out`.
fn push_lines(out: &mut Vec<Vec<char>>, src: &Vec<Vec<char>>, lo: usize, hi: usize)
    requires
        lo <= hi <= src.len(),
    ensures
        line_views(final(out)@) == line_views(old(out)@) + line_views(src@).subrange(
            lo as int,
            hi as int,
        ),
{
    let mut i: usize = lo;
    assert(line_views(out@) =~= line_views(old(out)@) + line_views(src@).subrange(
        lo as int,
        lo as int,
    ));
    while i < hi
        invariant
            lo <= i <= hi <= src.len(),
            line_views(out@) == line_views(old(out)@) + line_views(src@).subrange(
                lo as int,
                i as int,
            ),
        decreases hi - i,
    {
        let ghost before = out@;
        let line = copy_range(&src[i], 0, src[i].len());
        assert(line@ == src@[i as int]@) by {
            assert(src@[i as int]@.subrange(0, src@[i as int]@.len() as int) == src@[i as int]@);
        }
        out.push(line);
        assert(line_views(out@) =~= line_views(before).push(line@));
        assert(line_views(src@).subrange(lo as int, i + 1) =~= line_views(src@).subrange(
            lo as int,
            i as int,
        ).push(line@));
        i += 1;
    }
}

/// Appends copies of the lines of `src` to `out`, the last line first.
fn push_lines_reversed(out: &mut Vec<Vec<char>>, src: &Vec<Vec<char>>)
    ensures
        line_views(final(out)@) == line_views(old(out)@) + line_views(src@).reverse(),
{
    let n = src.len();
    let mut i: usize = 0;
    let ghost backwards = line_views(src@).reverse();
    assert(line_views(out@) =~= line_views(old(out)@) + backwards.take(0));
    while i < n
        invariant
            n == src.len(),
            i <= n,
            backwards == line_views(src@).reverse(),
            line_views(out@) == line_views(old(out)@) + backwards.take(i as int),
        decreases n - i,
    {
        let ghost before = out@;
        let from = &src[n - 1 - i];
        let line = copy_range(from, 0, from.len());
        assert(line@ == from@) by {
            assert(from@.subrange(0, from@.len() as int) == from@);
        }
        out.push(line);
        assert(line_views(out@) =~= line_views(before).push(line@));
        assert(backwards[i as int] == line@);
        assert(backwards.take(i + 1) =~= backwards.take(i as int).push(line@));
        i += 1;
    }
    assert(backwards.take(n as int) == backwards);
}

/// Appends an empty line to `out`.
fn push_empty_line(out: &mut Vec<Vec<char>>)
    ensures
        line_views(final(out)@) == line_views(old(out)@).push(Seq::<char>::empty()),
{
    out.push(Vec::new());
    assert(line_views(out@) =~= line_views(old(out)@).push(Seq::<char>::empty()));
}

/// Whether one of the lines is the `[auto]` header.
fn has_auto_header(lines: &Vec<Vec<char>>) -> (b: bool)
    ensures
        b == (last_auto_header(line_views(lines@)) is Some),
{
    let ghost all = line_views(lines@);
    let mut i: usize = 0;
    let mut seen = false;
    while i < lines.len()
        invariant
            i <= lines.len(),
            all == line_views(lines@),
            seen == (last_auto_header(all.take(i as int)) is Some),
        decreases lines.len() - i,
    {
        assert(all.take(i + 1).last() == lines@[i as int]@);
        assert(all.take(i + 1).drop_last() == all.take(i as int));
        if line_is_auto_header(&lines[i]) {
            seen = true;
        }
        i += 1;
    }
    assert(all.take(lines.len() as int) == all);
    seen
}

/// The lines with the block of missing top-level settings put in.
fn place_top_level_fields(
    lines: &Vec<Vec<char>>,
    header: Option<usize>,
    block: &Vec<Vec<char>>,
    count: usize,
) -> (placed: Vec<Vec<char>>)
    requires
        match header {
            Some(i) => last_auto_header(line_views(lines@)) == Some(i as int),
            None => last_auto_header(line_views(lines@)) is None,
        },
        line_views(block@) == template_block(
            missing_fields(line_views(lines@), false, FIELD_COUNT as int),
        ),
        count == missing_fields(line_views(lines@), false, FIELD_COUNT as int).len(),
    ensures
        line_views(placed@) == with_top_level_fields(line_views(lines@)),
{
    let ghost all = line_views(lines@);
    let mut placed: Vec<Vec<char>> = Vec::new();
    assert(line_views(placed@) =~= Seq::<Seq<char>>::empty());
    proof {
        lemma_last_auto_header(all);
    }
    if count == 0 {
        push_lines(&mut placed, lines, 0, lines.len());
        assert(all.subrange(0, lines.len() as int) == all);
        assert(line_views(placed@) =~= all);
        return placed;
    }
    let at = match header {
        Some(i) => i,
        None => lines.len(),
    };
    push_lines(&mut placed, lines, 0, at);
    assert(line_views(placed@) =~= all.take(at as int));
    let ghost before = if at > 0 && !is_blank(all[at - 1]) {
        seq![Seq::<char>::empty()]
    } else {
        Seq::empty()
    };
    if at > 0 && !line_is_blank(&lines[at - 1]) {
        push_empty_line(&mut placed);
    }
    assert(line_views(placed@) =~= all.take(at as int) + before);
    push_lines(&mut placed, block, 0, block.len());
    assert(line_views(block@).subrange(0, block.len() as int) == line_views(block@));
    let ghost after = if header is Some {
        seq![Seq::<char>::empty()]
    } else {
        Seq::empty()
    };
    if header.is_some() {
        push_empty_line(&mut placed);
    }
    assert(line_views(placed@) =~= all.take(at as int) + before + line_views(block@) + after);
    push_lines(&mut placed, lines, at, lines.len());
    assert(all.subrange(at as int, lines.len() as int) == all.skip(at as int));
    placed
}

/// Puts the block of missing settings of the `[auto]` part at the end of
/// `lines`, after opening the part where the lines have no header.
fn place_auto_fields(
    lines: &mut Vec<Vec<char>>,
    block: &Vec<Vec<char>>,
    count: usize,
    Ghost(fields): Ghost<Seq<int>>,
)
    requires
        line_views(block@) == template_block(fields),
        count == fields.len(),
    ensures
        line_views(final(lines)@) == with_auto_fields(line_views(old(lines)@), fields),
{
    let ghost all = line_views(lines@);
    if count == 0 {
        return ;
    }
    if !has_auto_header(lines) {
        if lines.len() > 0 && !line_is_blank(&lines[lines.len() - 1]) {
            push_empty_line(lines);
        }
        push_line(lines, "# Auto color generation parameters");
        push_line(lines, "[auto]");
        assert(line_views(lines@) =~= (if all.len() > 0 && !is_blank(all.last()) {
            all.push(Seq::<char>::empty())
        } else {
            all
        }) + seq!["# Auto color generation parameters"@, "[auto]"@]);
    }
    push_lines_reversed(lines, block);
}

/// Brings a configuration file up to date: each known setting that no line
/// of the file assigns to, commented out or not, is added as a commented-out
/// default with its explanation. What the file held stays as it was. A file
/// that mentions every setting is returned unchanged.
pub fn upgrade_config(content: &str) -> (upgraded: String)
    ensures
        upgraded@ == upgraded_text(content@),
{
    let chars = to_chars(content);
    let lines = lines_of(&chars);
    let ghost all = line_views(lines@);
    let present = detect_in_lines(&lines);
    let (top_block, top_count) = missing_block(&present.found, false, Ghost(all));
    let (auto_block, auto_count) = missing_block(&present.found, true, Ghost(all));
    if top_count == 0 && auto_count == 0 {
        return to_string(&chars);
    }
    let mut result = place_top_level_fields(
        &lines,
        present.auto_section_line,
        &top_block,
        top_count,
    );
    place_auto_fields(
        &mut result,
        &auto_block,
        auto_count,
        Ghost(missing_fields(all, true, FIELD_COUNT as int)),
    );
    let mut text = join(&result);
    if !(text.len() > 0 && text[text.len() - 1] == '\n') {
        text.push('\n');
    }
    to_string(&text)
}

// ---------------------------------------------------------------------------
// The default file
// ---------------------------------------------------------------------------

/// The lines of the default file: a heading, the top-level settings with an
/// empty line after each, the `[auto]` header, and the settings of that
/// part, the two bounds of a range together.
pub open spec fn default_config_lines() -> Seq<Seq<char>> {
    let blank = seq![Seq::<char>::empty()];
    seq![
        "# termtint user configuration"@,
        "# Location: ~/.config/termtint/config.toml"@,
        Seq::<char>::empty(),
    ] + field_setting(0) + blank + field_setting(1) + blank + field_setting(2) + blank
        + field_setting(3) + blank + field_setting(4) + blank + seq![
        "# Auto color generation parameters"@,
        "[auto]"@,
    ] + field_setting(5) + field_setting(6) + blank + field_setting(7) + field_setting(8) + blank
        + field_setting(9)
}

/// The configuration file that is written where the user has none: every
/// setting with its default and its explanation, each line ended by a line
/// feed.
pub open spec fn default_config_text() -> Seq<char> {
    join_lines(default_config_lines()).push('\n')
}

/// The configuration file that is written where the user has none.
pub fn default_config_toml() -> (text: String)
    ensures
        text@ == default_config_text(),
{
    let mut lines: Vec<Vec<char>> = Vec::new();
    assert(line_views(lines@) =~= Seq::<Seq<char>>::empty());
    push_line(&mut lines, "# termtint user configuration");
    push_line(&mut lines, "# Location: ~/.config/termtint/config.toml");
    push_empty_line(&mut lines);
    let ghost blank = seq![Seq::<char>::empty()];
    let ghost heading = seq![
        "# termtint user configuration"@,
        "# Location: ~/.config/termtint/config.toml"@,
        Seq::<char>::empty(),
    ];
    assert(line_views(lines@) =~= heading);
    push_setting(&mut lines, 0);
    push_empty_line(&mut lines);
    push_setting(&mut lines, 1);
    push_empty_line(&mut lines);
    push_setting(&mut lines, 2);
    push_empty_line(&mut lines);
    assert(line_views(lines@) =~= heading + field_setting(0) + blank + field_setting(1) + blank
        + field_setting(2) + blank);
    push_setting(&mut lines, 3);
    push_empty_line(&mut lines);
    push_setting(&mut lines, 4);
    push_empty_line(&mut lines);
    push_line(&mut lines, "# Auto color generation parameters");
    push_line(&mut lines, "[auto]");
    assert(line_views(lines@) =~= heading + field_setting(0) + blank + field_setting(1) + blank
        + field_setting(2) + blank + field_setting(3) + blank + field_setting(4) + blank + seq![
        "# Auto color generation parameters"@,
        "[auto]"@,
    ]);
    push_setting(&mut lines, 5);
    push_setting(&mut lines, 6);
    push_empty_line(&mut lines);
    push_setting(&mut lines, 7);
    push_setting(&mut lines, 8);
    push_empty_line(&mut lines);
    push_setting(&mut lines, 9);
    assert(line_views(lines@) =~= default_config_lines());
    let mut text = join(&lines);
    text.push('\n');
    to_string(&text)
}

} // verus!
