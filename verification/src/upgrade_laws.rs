//! What bringing a configuration file up to date achieves: the file keeps
//! every line it had, it mentions every setting afterwards, and bringing it
//! up to date once more changes nothing.

use crate::text::{
    join_lines, joined_after, joined_before, lemma_first_index_is, lemma_join_lines_around,
    lemma_lines_hold_no_line_feed, lemma_split_lines_at_line_end, lemma_split_lines_first,
    lemma_trim_ignores_carriage_return, lemma_trim_keeps, split_lines, strip_carriage_return,
    trim, trim_end, trim_start,
};
use crate::user_config::{
    active_default, assigned_name, assignment_text, commented_default, default_config_lines,
    default_config_text, field_default, field_in_auto_section, field_name, field_present,
    field_template, is_complete, missing_fields, template_block, upgraded_lines, upgraded_text,
    with_auto_fields, with_final_newline, with_top_level_fields, FIELD_COUNT,
};
use vstd::prelude::*;

verus! {

// ---------------------------------------------------------------------------
// The templates name their settings
// ---------------------------------------------------------------------------

/// Whether a character can stand in the name of a setting.
pub open spec fn is_name_char(c: char) -> bool {
    ('a' <= c <= 'z') || c == '_'
}

/// The name of a setting is not empty and is made of lower-case letters and
/// underscores.
proof fn lemma_field_name(k: int)
    ensures
        field_name(k).len() > 0,
        forall|j: int| 0 <= j < field_name(k).len() ==> is_name_char(#[trigger] field_name(k)[j]),
{
    reveal_strlit("background_lightness");
    reveal_strlit("background_saturation");
    reveal_strlit("trigger_files");
    reveal_strlit("trigger_paths");
    reveal_strlit("color_format");
    reveal_strlit("hue_min");
    reveal_strlit("hue_max");
    reveal_strlit("saturation_min");
    reveal_strlit("saturation_max");
    reveal_strlit("lightness");
}

/// Whether a character can stand in the default of a setting.
pub open spec fn is_default_char(c: char) -> bool {
    ('0' <= c <= '9') || ('a' <= c <= 'z') || c == '.' || c == '[' || c == ']' || c == '"'
}

/// The default of a setting is not empty and is made of digits, letters,
/// dots, brackets and quotes.
proof fn lemma_field_default(k: int)
    ensures
        field_default(k).len() > 0,
        forall|j: int|
            0 <= j < field_default(k).len() ==> is_default_char(#[trigger] field_default(k)[j]),
{
    reveal_strlit("0.18");
    reveal_strlit("1.00");
    reveal_strlit("[]");
    reveal_strlit("\"hex\"");
    reveal_strlit("0.0");
    reveal_strlit("360.0");
    reveal_strlit("0.7");
    reveal_strlit("0.9");
    reveal_strlit("0.55");
}

/// The line that assigns a setting its default, commented out, is read as
/// an assignment to that setting.
pub proof fn lemma_commented_default(k: int)
    ensures
        assigned_name(commented_default(k)) == Some(field_name(k)),
        commented_default(k).len() > 0,
        !commented_default(k).contains('\n'),
{
    let name = field_name(k);
    let default = field_default(k);
    let line = commented_default(k);
    lemma_field_name(k);
    lemma_field_default(k);
    assert(is_name_char(name[0]));
    assert(is_name_char(name.last()));
    assert(is_default_char(default.last()));
    assert(line[0] == '#');
    assert(line.last() == default.last());
    lemma_trim_keeps(line);
    let after_mark = line.skip(1);
    let text = name + seq![' ', '=', ' '] + default;
    assert(after_mark[0] == ' ');
    assert(after_mark.skip(1) =~= text);
    assert(text[0] == name[0]);
    assert(trim_start(after_mark) == trim_start(text));
    assert(trim_start(text) == text);
    assert(assignment_text(line) == text);
    let at = name.len() as int + 1;
    assert(text[at] == '=');
    assert forall|j: int| 0 <= j < at implies text[j] != '=' by {
        if j < name.len() {
            assert(text[j] == name[j]);
            assert(is_name_char(name[j]));
        } else {
            assert(text[j] == ' ');
        }
    }
    lemma_first_index_is(text, '=', at);
    let before = text.take(at);
    assert(before =~= name.push(' '));
    assert(before[0] == name[0]);
    assert(trim_start(before) == before);
    assert(before.drop_last() =~= name);
    assert(trim_end(before) == trim_end(name));
    assert(trim_end(name) == name);
    if line.contains('\n') {
        let j = choose|j: int| 0 <= j < line.len() && line[j] == '\n';
        if j < 2 {
        } else if j < 2 + name.len() {
            assert(line[j] == name[j - 2]);
            assert(is_name_char(name[j - 2]));
        } else if j < 5 + name.len() {
        } else {
            assert(line[j] == default[j - 5 - name.len()]);
            assert(is_default_char(default[j - 5 - name.len()]));
        }
    }
}

// ---------------------------------------------------------------------------
// On the level of lines
// ---------------------------------------------------------------------------

/// A block of templates holds the commented-out default of each of its
/// settings.
proof fn lemma_block_holds_defaults(fields: Seq<int>, k: int)
    requires
        fields.contains(k),
    ensures
        template_block(fields).contains(commented_default(k)),
    decreases fields.len(),
{
    let block = template_block(fields);
    let i = choose|i: int| 0 <= i < fields.len() && fields[i] == k;
    if fields.len() == 1 {
        assert(block == field_template(k));
        assert(block.last() == commented_default(k));
    } else {
        let head = template_block(fields.drop_last());
        let tail = field_template(fields.last());
        assert(block == head + seq![Seq::<char>::empty()] + tail);
        if i == fields.len() - 1 {
            assert(block.last() == tail.last());
            assert(tail.last() == commented_default(k));
        } else {
            assert(fields.drop_last()[i] == k);
            lemma_block_holds_defaults(fields.drop_last(), k);
            let j = choose|j: int| 0 <= j < head.len() && head[j] == commented_default(k);
            assert(block[j] == head[j]);
        }
    }
}

/// A setting that belongs to a part of the file and that no line assigns to
/// is among the missing settings of that part.
proof fn lemma_missing_fields_hold(lines: Seq<Seq<char>>, in_auto: bool, n: int, k: int)
    requires
        0 <= k < n,
        field_in_auto_section(k) == in_auto,
        !field_present(lines, k),
    ensures
        missing_fields(lines, in_auto, n).contains(k),
    decreases n,
{
    let rest = missing_fields(lines, in_auto, n - 1);
    if k == n - 1 {
        assert(rest.push(k)[rest.len() as int] == k);
    } else {
        lemma_missing_fields_hold(lines, in_auto, n - 1, k);
        let j = choose|j: int| 0 <= j < rest.len() && rest[j] == k;
        if field_in_auto_section(n - 1) == in_auto && !field_present(lines, n - 1) {
            assert(rest.push(n - 1)[j] == k);
        }
    }
}

/// Where every setting is present, none is missing.
proof fn lemma_nothing_missing(lines: Seq<Seq<char>>, in_auto: bool, n: int)
    requires
        forall|k: int| 0 <= k < n ==> field_present(lines, k),
    ensures
        missing_fields(lines, in_auto, n).len() == 0,
    decreases n,
{
    if n > 0 {
        lemma_nothing_missing(lines, in_auto, n - 1);
    }
}

/// Putting in the settings of the `[auto]` part leaves the lines before
/// them as they were.
proof fn lemma_auto_fields_follow(lines: Seq<Seq<char>>, fields: Seq<int>)
    ensures
        with_auto_fields(lines, fields).len() >= lines.len(),
        forall|i: int| 0 <= i < lines.len() ==> with_auto_fields(lines, fields)[i] == lines[i],
        forall|k: int|
            fields.contains(k) ==> with_auto_fields(lines, fields).contains(commented_default(k)),
{
    let out = with_auto_fields(lines, fields);
    assert forall|k: int| fields.contains(k) implies out.contains(commented_default(k)) by {
        lemma_block_holds_defaults(fields, k);
        let block = template_block(fields);
        let j = choose|j: int| 0 <= j < block.len() && block[j] == commented_default(k);
        let turned = block.reverse();
        assert(turned[block.len() - 1 - j] == block[j]);
        assert(out[out.len() - turned.len() + (block.len() - 1 - j)] == turned[block.len() - 1
            - j]);
    }
}

/// Putting in the top-level settings keeps every line, and puts in the
/// commented-out default of each setting that was missing.
proof fn lemma_top_level_fields_kept(lines: Seq<Seq<char>>)
    ensures
        forall|i: int|
            0 <= i < lines.len() ==> with_top_level_fields(lines).contains(#[trigger] lines[i]),
        forall|k: int|
            0 <= k < FIELD_COUNT && !field_in_auto_section(k) && !field_present(lines, k)
                ==> with_top_level_fields(lines).contains(commented_default(k)),
{
    let out = with_top_level_fields(lines);
    let fields = missing_fields(lines, false, FIELD_COUNT as int);
    crate::user_config::lemma_last_auto_header(lines);
    let at = match crate::user_config::last_auto_header(lines) {
        Some(i) => i,
        None => lines.len() as int,
    };
    assert forall|i: int| 0 <= i < lines.len() implies out.contains(#[trigger] lines[i]) by {
        if fields.len() == 0 {
            assert(out[i] == lines[i]);
        } else if i < at {
            assert(out[i] == lines[i]);
        } else {
            assert(out[out.len() - lines.len() + i] == lines[i]);
        }
    }
    assert forall|k: int|
        0 <= k < FIELD_COUNT && !field_in_auto_section(k) && !field_present(
            lines,
            k,
        ) implies out.contains(commented_default(k)) by {
        lemma_missing_fields_hold(lines, false, FIELD_COUNT as int, k);
        lemma_block_holds_defaults(fields, k);
        let block = template_block(fields);
        let j = choose|j: int| 0 <= j < block.len() && block[j] == commented_default(k);
        let before = out.len() - block.len() - (lines.len() - at) - (if crate::user_config::last_auto_header(
            lines,
        ) is Some {
            1int
        } else {
            0int
        });
        assert(out[before + j] == block[j]);
    }
}

/// A file that is brought up to date keeps every line it had.
pub proof fn lemma_upgrade_keeps_lines(lines: Seq<Seq<char>>)
    ensures
        forall|i: int| 0 <= i < lines.len() ==> upgraded_lines(lines).contains(#[trigger] lines[i]),
{
    let placed = with_top_level_fields(lines);
    let fields = missing_fields(lines, true, FIELD_COUNT as int);
    lemma_top_level_fields_kept(lines);
    lemma_auto_fields_follow(placed, fields);
    assert forall|i: int| 0 <= i < lines.len() implies upgraded_lines(lines).contains(
        #[trigger] lines[i],
    ) by {
        assert(placed.contains(lines[i]));
        let j = choose|j: int| 0 <= j < placed.len() && placed[j] == lines[i];
        assert(upgraded_lines(lines)[j] == placed[j]);
    }
}

/// Where the `i`-th line of a file stands among the lines of the file
/// brought up to date: where it stood, or further down by as many lines as
/// were put in before it.
pub open spec fn place_after_upgrade(lines: Seq<Seq<char>>, i: int) -> int {
    let at = match crate::user_config::last_auto_header(lines) {
        Some(header) => header,
        None => lines.len() as int,
    };
    if i < at {
        i
    } else {
        i + (with_top_level_fields(lines).len() - lines.len())
    }
}

/// A file that is brought up to date keeps its lines in their order: each
/// line stands at its place among the new lines, and a line that stood
/// before another still stands before it.
pub proof fn lemma_upgrade_keeps_order(lines: Seq<Seq<char>>)
    ensures
        forall|i: int|
            0 <= i < lines.len() ==> 0 <= place_after_upgrade(lines, i) < upgraded_lines(
                lines,
            ).len() && upgraded_lines(lines)[place_after_upgrade(lines, i)] == #[trigger] lines[i],
        forall|i: int, j: int|
            0 <= i < j < lines.len() ==> place_after_upgrade(lines, i) < place_after_upgrade(
                lines,
                j,
            ),
{
    let placed = with_top_level_fields(lines);
    let fields = missing_fields(lines, true, FIELD_COUNT as int);
    crate::user_config::lemma_last_auto_header(lines);
    lemma_auto_fields_follow(placed, fields);
    assert(placed.len() >= lines.len());
    assert forall|i: int| 0 <= i < lines.len() implies 0 <= place_after_upgrade(lines, i)
        < upgraded_lines(lines).len() && upgraded_lines(lines)[place_after_upgrade(lines, i)]
        == #[trigger] lines[i] by {
        let p = place_after_upgrade(lines, i);
        assert(0 <= p < placed.len());
        assert(placed[p] == lines[i]);
        assert(upgraded_lines(lines)[p] == placed[p]);
    }
}

/// A file that was brought up to date mentions every setting.
pub proof fn lemma_upgrade_completes(lines: Seq<Seq<char>>)
    ensures
        forall|k: int| 0 <= k < FIELD_COUNT ==> field_present(upgraded_lines(lines), k),
        is_complete(upgraded_lines(lines)),
{
    let out = upgraded_lines(lines);
    let placed = with_top_level_fields(lines);
    let fields = missing_fields(lines, true, FIELD_COUNT as int);
    lemma_upgrade_keeps_lines(lines);
    lemma_top_level_fields_kept(lines);
    lemma_auto_fields_follow(placed, fields);
    assert forall|k: int| 0 <= k < FIELD_COUNT implies field_present(out, k) by {
        if field_present(lines, k) {
            let i = choose|i: int|
                0 <= i < lines.len() && assigned_name(#[trigger] lines[i]) == Some(field_name(k));
            assert(out.contains(lines[i]));
            let j = choose|j: int| 0 <= j < out.len() && out[j] == lines[i];
            assert(assigned_name(out[j]) == Some(field_name(k)));
        } else {
            lemma_commented_default(k);
            if field_in_auto_section(k) {
                lemma_missing_fields_hold(lines, true, FIELD_COUNT as int, k);
                assert(out.contains(commented_default(k)));
            } else {
                assert(placed.contains(commented_default(k)));
                let i = choose|i: int| 0 <= i < placed.len() && placed[i] == commented_default(k);
                assert(out[i] == placed[i]);
            }
            let j = choose|j: int| 0 <= j < out.len() && out[j] == commented_default(k);
            assert(assigned_name(out[j]) == Some(field_name(k)));
        }
    }
    lemma_nothing_missing(out, false, FIELD_COUNT as int);
    lemma_nothing_missing(out, true, FIELD_COUNT as int);
}

// ---------------------------------------------------------------------------
// On the level of the text
// ---------------------------------------------------------------------------

/// Whether a line assigns to the `k`-th setting and holds no line feed.
pub open spec fn names_field(line: Seq<char>, k: int) -> bool {
    assigned_name(line) == Some(field_name(k)) && !line.contains('\n')
}

/// A line that assigns to something is not empty.
proof fn lemma_assignment_is_not_empty(line: Seq<char>)
    requires
        assigned_name(line) is Some,
    ensures
        line.len() > 0,
{
    if line.len() == 0 {
        assert(trim_start(line) == line);
        assert(trim(line) == line);
    }
}

/// A line without the carriage return that ended it assigns to what it
/// assigned to before.
proof fn lemma_assignment_ignores_carriage_return(line: Seq<char>)
    ensures
        assigned_name(strip_carriage_return(line)) == assigned_name(line),
{
    lemma_trim_ignores_carriage_return(line);
}

/// A line that holds no line feed is a line of the text that the lines
/// make, but for the carriage return that may have ended it.
proof fn lemma_line_is_read_back(lines: Seq<Seq<char>>, i: int)
    requires
        0 <= i < lines.len(),
        lines[i].len() > 0 || i < lines.len() - 1,
        !lines[i].contains('\n'),
    ensures
        split_lines(joined_before(lines, i)).len() < split_lines(
            with_final_newline(join_lines(lines)),
        ).len(),
        split_lines(with_final_newline(join_lines(lines)))[split_lines(
            joined_before(lines, i),
        ).len() as int] == strip_carriage_return(lines[i]),
        split_lines(with_final_newline(join_lines(lines))).contains(
            strip_carriage_return(lines[i]),
        ),
{
    let line = lines[i];
    let joined = join_lines(lines);
    let text = with_final_newline(joined);
    let before = joined_before(lines, i);
    let after = joined_after(lines, i);
    lemma_join_lines_around(lines, i);
    let rest = if i == lines.len() - 1 {
        Seq::<char>::empty()
    } else if joined.last() == '\n' {
        join_lines(lines.skip(i + 1))
    } else {
        join_lines(lines.skip(i + 1)).push('\n')
    };
    if i == lines.len() - 1 {
        assert(line.contains(line.last()));
        assert(joined.last() == line.last());
        assert(text =~= before + (line + seq!['\n'] + rest));
    } else {
        assert(after[0] == '\n');
        assert(joined.len() > 0);
        assert(text =~= before + (line + seq!['\n'] + rest));
    }
    lemma_split_lines_at_line_end(before, line + seq!['\n'] + rest);
    lemma_split_lines_first(line, rest);
    let front = split_lines(before);
    let all = split_lines(text);
    assert(all == front + (seq![strip_carriage_return(line)] + split_lines(rest)));
    assert(all[front.len() as int] == strip_carriage_return(line));
}

/// A line that holds no line feed takes up room in the joined text: more
/// lines stand before a later line than before it.
proof fn lemma_lines_before_grow(lines: Seq<Seq<char>>, a: int, b: int)
    requires
        0 <= a < b < lines.len(),
        !lines[a].contains('\n'),
    ensures
        split_lines(joined_before(lines, a)).len() < split_lines(joined_before(lines, b)).len(),
{
    let upto = lines.take(b);
    let line = lines[a];
    lemma_join_lines_around(upto, a);
    assert(upto.take(a) == lines.take(a));
    assert(upto[a] == line);
    let before = joined_before(lines, a);
    assert(joined_before(upto, a) == before);
    let rest = if a == upto.len() - 1 {
        Seq::<char>::empty()
    } else {
        join_lines(upto.skip(a + 1)).push('\n')
    };
    assert(joined_before(lines, b) =~= before + (line + seq!['\n'] + rest));
    lemma_split_lines_at_line_end(before, line + seq!['\n'] + rest);
    lemma_split_lines_first(line, rest);
}

/// A file that was brought up to date mentions every setting on a line
/// that holds no line feed, where no line of the file held one before.
proof fn lemma_upgrade_completes_cleanly(lines: Seq<Seq<char>>, k: int)
    requires
        forall|i: int| 0 <= i < lines.len() ==> !(#[trigger] lines[i]).contains('\n'),
        0 <= k < FIELD_COUNT,
    ensures
        exists|j: int|
            0 <= j < upgraded_lines(lines).len() && names_field(
                #[trigger] upgraded_lines(lines)[j],
                k,
            ),
{
    let out = upgraded_lines(lines);
    let placed = with_top_level_fields(lines);
    let fields = missing_fields(lines, true, FIELD_COUNT as int);
    lemma_upgrade_keeps_lines(lines);
    lemma_top_level_fields_kept(lines);
    lemma_auto_fields_follow(placed, fields);
    if field_present(lines, k) {
        let i = choose|i: int|
            0 <= i < lines.len() && assigned_name(#[trigger] lines[i]) == Some(field_name(k));
        assert(out.contains(lines[i]));
        let j = choose|j: int| 0 <= j < out.len() && out[j] == lines[i];
        assert(names_field(out[j], k));
    } else {
        lemma_commented_default(k);
        if field_in_auto_section(k) {
            lemma_missing_fields_hold(lines, true, FIELD_COUNT as int, k);
            assert(out.contains(commented_default(k)));
        } else {
            assert(placed.contains(commented_default(k)));
            let i = choose|i: int| 0 <= i < placed.len() && placed[i] == commented_default(k);
            assert(out[i] == placed[i]);
        }
        let j = choose|j: int| 0 <= j < out.len() && out[j] == commented_default(k);
        assert(names_field(out[j], k));
    }
}

/// A file that was brought up to date is up to date. Bringing
/// it up to date once more changes nothing.
pub proof fn lemma_upgrade_is_idempotent(content: Seq<char>)
    ensures
        is_complete(split_lines(upgraded_text(content))),
        upgraded_text(upgraded_text(content)) == upgraded_text(content),
{
    let lines = split_lines(content);
    if !is_complete(lines) {
        let out = upgraded_lines(lines);
        let text = upgraded_text(content);
        let read = split_lines(text);
        assert forall|i: int| 0 <= i < lines.len() implies !(#[trigger] lines[i]).contains(
            '\n',
        ) by {
            lemma_lines_hold_no_line_feed(content, i);
        }
        assert forall|k: int| 0 <= k < FIELD_COUNT implies field_present(read, k) by {
            lemma_upgrade_completes_cleanly(lines, k);
            let j = choose|j: int| 0 <= j < out.len() && names_field(#[trigger] out[j], k);
            lemma_assignment_is_not_empty(out[j]);
            lemma_line_is_read_back(out, j);
            lemma_assignment_ignores_carriage_return(out[j]);
            let kept = strip_carriage_return(out[j]);
            let m = choose|m: int| 0 <= m < read.len() && read[m] == kept;
            assert(assigned_name(read[m]) == Some(field_name(k)));
        }
        lemma_nothing_missing(read, false, FIELD_COUNT as int);
        lemma_nothing_missing(read, true, FIELD_COUNT as int);
    }
}

/// Where the `i`-th line of a file stands among the lines of the text that
/// bringing the file up to date gives.
pub open spec fn place_in_upgraded_text(content: Seq<char>, i: int) -> int {
    let lines = split_lines(content);
    if is_complete(lines) {
        i
    } else {
        split_lines(
            joined_before(upgraded_lines(lines), place_after_upgrade(lines, i)),
        ).len() as int
    }
}

/// Whether the `i`-th line of a file stands at its place in the text that
/// bringing the file up to date gives: as it was, or without the carriage
/// return that ended it.
pub open spec fn line_is_kept(content: Seq<char>, i: int) -> bool {
    let line = split_lines(content)[i];
    let read = split_lines(upgraded_text(content));
    let place = place_in_upgraded_text(content, i);
    0 <= place < read.len() && (read[place] == line || read[place] == strip_carriage_return(line))
}

/// The text that bringing a file up to date gives holds the lines of the
/// file in their order. Each line stands at its place, but for the carriage
/// return that may have ended it, and a line that stood before another
/// still stands before it. The one line that can be lost is an empty line
/// at the very end of the file.
pub proof fn lemma_upgrade_keeps_lines_in_order(content: Seq<char>)
    ensures
        forall|i: int|
            0 <= i < split_lines(content).len() && (split_lines(content)[i].len() > 0 || i
                < split_lines(content).len() - 1) ==> #[trigger] line_is_kept(content, i),
        forall|i: int, j: int|
            0 <= i < j < split_lines(content).len() ==> #[trigger] place_in_upgraded_text(
                content,
                i,
            ) < #[trigger] place_in_upgraded_text(content, j),
{
    let lines = split_lines(content);
    if !is_complete(lines) {
        let out = upgraded_lines(lines);
        lemma_upgrade_keeps_order(lines);
        assert forall|i: int|
            0 <= i < lines.len() && (lines[i].len() > 0 || i < lines.len()
                - 1) implies #[trigger] line_is_kept(content, i) by {
            lemma_lines_hold_no_line_feed(content, i);
            let a = place_after_upgrade(lines, i);
            assert(out[a] == lines[i]);
            if i < lines.len() - 1 {
                assert(a < place_after_upgrade(lines, i + 1));
            }
            lemma_line_is_read_back(out, a);
        }
        assert forall|i: int, j: int| 0 <= i < j < lines.len() implies #[trigger] place_in_upgraded_text(
            content,
            i,
        ) < #[trigger] place_in_upgraded_text(content, j) by {
            lemma_lines_hold_no_line_feed(content, i);
            let a = place_after_upgrade(lines, i);
            let b = place_after_upgrade(lines, j);
            assert(out[a] == lines[i]);
            assert(a < b);
            lemma_lines_before_grow(out, a, b);
        }
    }
}

// ---------------------------------------------------------------------------
// The default file
// ---------------------------------------------------------------------------

/// The line that assigns a setting its default is read as an assignment to
/// that setting.
proof fn lemma_active_default(k: int)
    ensures
        assigned_name(active_default(k)) == Some(field_name(k)),
        active_default(k).len() > 0,
        !active_default(k).contains('\n'),
{
    let name = field_name(k);
    let default = field_default(k);
    let line = active_default(k);
    lemma_field_name(k);
    lemma_field_default(k);
    assert(is_name_char(name[0]));
    assert(is_name_char(name.last()));
    assert(is_default_char(default.last()));
    assert(line[0] == name[0]);
    assert(line.last() == default.last());
    lemma_trim_keeps(line);
    assert(assignment_text(line) == line);
    let at = name.len() as int + 1;
    assert(line[at] == '=');
    assert forall|j: int| 0 <= j < at implies line[j] != '=' by {
        if j < name.len() {
            assert(line[j] == name[j]);
            assert(is_name_char(name[j]));
        } else {
            assert(line[j] == ' ');
        }
    }
    lemma_first_index_is(line, '=', at);
    let before = line.take(at);
    assert(before =~= name.push(' '));
    assert(before[0] == name[0]);
    assert(trim_start(before) == before);
    assert(before.drop_last() =~= name);
    assert(trim_end(before) == trim_end(name));
    assert(trim_end(name) == name);
    if line.contains('\n') {
        let j = choose|j: int| 0 <= j < line.len() && line[j] == '\n';
        if j < name.len() {
            assert(line[j] == name[j]);
            assert(is_name_char(name[j]));
        } else if j < 3 + name.len() {
        } else {
            assert(line[j] == default[j - 3 - name.len()]);
            assert(is_default_char(default[j - 3 - name.len()]));
        }
    }
}

/// Where the `k`-th setting stands among the lines of the default file.
spec fn place_in_default(k: int) -> int {
    if k == 0 {
        4
    } else if k == 1 {
        8
    } else if k == 2 {
        12
    } else if k == 3 {
        17
    } else if k == 4 {
        20
    } else if k == 5 {
        25
    } else if k == 6 {
        26
    } else if k == 7 {
        29
    } else if k == 8 {
        30
    } else {
        33
    }
}

/// The default file is up to date: it mentions every setting, and bringing
/// it up to date changes nothing.
pub proof fn lemma_default_file_is_complete()
    ensures
        is_complete(split_lines(default_config_text())),
        upgraded_text(default_config_text()) == default_config_text(),
{
    let lines = default_config_lines();
    let text = default_config_text();
    let read = split_lines(text);
    assert(lines.len() == 34);
    assert(lines.last() == active_default(9));
    lemma_active_default(9);
    let joined = join_lines(lines);
    lemma_join_lines_around(lines, 33);
    assert(joined.len() > 0 && joined.last() == active_default(9).last());
    assert(active_default(9).contains(active_default(9).last()));
    assert(with_final_newline(joined) == text);
    assert forall|k: int| 0 <= k < FIELD_COUNT implies field_present(read, k) by {
        let at = place_in_default(k);
        assert(lines[at] == active_default(k));
        lemma_active_default(k);
        lemma_line_is_read_back(lines, at);
        lemma_assignment_ignores_carriage_return(lines[at]);
        let kept = strip_carriage_return(lines[at]);
        let m = choose|m: int| 0 <= m < read.len() && read[m] == kept;
        assert(assigned_name(read[m]) == Some(field_name(k)));
    }
    lemma_nothing_missing(read, false, FIELD_COUNT as int);
    lemma_nothing_missing(read, true, FIELD_COUNT as int);
}

} // verus!
