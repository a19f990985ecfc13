//! Trigger patterns: which directory paths a pattern matches.
//!
//! A pattern is matched against a whole path. `*` stands for any run of
//! characters within one path component, `?` for exactly one such character,
//! and every other character for itself. A `~` at the start of a pattern
//! stands for the home directory.

use crate::text::{append_chars, find_char, lemma_first_index, to_chars};
use vstd::prelude::*;

verus! {

/// Whether `pattern` matches the whole of `text`. Neither `*` nor `?`
/// stands for a `/`.
pub open spec fn glob_matches(pattern: Seq<char>, text: Seq<char>) -> bool
    decreases pattern.len(), text.len(),
{
    if pattern.len() == 0 {
        text.len() == 0
    } else if pattern[0] == '*' {
        glob_matches(pattern.skip(1), text) || (text.len() > 0 && text[0] != '/' && glob_matches(
            pattern,
            text.skip(1),
        ))
    } else if pattern[0] == '?' {
        text.len() > 0 && text[0] != '/' && glob_matches(pattern.skip(1), text.skip(1))
    } else {
        text.len() > 0 && text[0] == pattern[0] && glob_matches(pattern.skip(1), text.skip(1))
    }
}

/// A pattern that holds neither `*` nor `?` matches the text that is equal
/// to it, and no other.
pub proof fn lemma_literal_pattern(pattern: Seq<char>, text: Seq<char>)
    requires
        !pattern.contains('*'),
        !pattern.contains('?'),
    ensures
        glob_matches(pattern, text) == (pattern == text),
    decreases pattern.len(),
{
    if pattern.len() == 0 {
        assert(glob_matches(pattern, text) == (text.len() == 0));
        assert((text.len() == 0) == (pattern =~= text));
    } else {
        assert(pattern.contains(pattern[0]));
        let rest = pattern.skip(1);
        assert forall|c: char| rest.contains(c) implies pattern.contains(c) by {
            let i = choose|i: int| 0 <= i < rest.len() && rest[i] == c;
            assert(pattern[i + 1] == c);
        }
        if text.len() > 0 {
            lemma_literal_pattern(rest, text.skip(1));
            if text[0] == pattern[0] && rest == text.skip(1) {
                assert(pattern.len() == text.len());
                assert forall|i: int| 0 <= i < pattern.len() implies pattern[i] == text[i] by {
                    if i > 0 {
                        assert(rest[i - 1] == pattern[i]);
                        assert(text.skip(1)[i - 1] == text[i]);
                    }
                }
                assert(pattern =~= text);
            }
            if pattern == text {
                assert(rest =~= text.skip(1));
            }
        }
    }
}

/// A lone `*` matches exactly the texts that hold no `/`: the names within
/// one directory.
pub proof fn lemma_star_stays_in_component(text: Seq<char>)
    ensures
        glob_matches(seq!['*'], text) == !text.contains('/'),
    decreases text.len(),
{
    let star = seq!['*'];
    assert(star.skip(1).len() == 0);
    assert(glob_matches(star.skip(1), text) == (text.len() == 0));
    if text.len() > 0 {
        let rest = text.skip(1);
        lemma_star_stays_in_component(rest);
        if text.contains('/') && text[0] != '/' {
            let i = choose|i: int| 0 <= i < text.len() && text[i] == '/';
            assert(rest[i - 1] == '/');
        }
        if rest.contains('/') {
            let i = choose|i: int| 0 <= i < rest.len() && rest[i] == '/';
            assert(text[i + 1] == '/');
        }
    }
}

/// Whether what is left of the pattern from `i` on matches what is left of
/// the text from `j` on.
pub open spec fn matches_from(pattern: Seq<char>, text: Seq<char>, i: int, j: int) -> bool {
    glob_matches(pattern.skip(i), text.skip(j))
}

/// How a match from `i` and `j` follows from the matches one step on.
proof fn lemma_matches_from(pattern: Seq<char>, text: Seq<char>, i: int, j: int)
    requires
        0 <= i <= pattern.len(),
        0 <= j <= text.len(),
    ensures
        i == pattern.len() ==> matches_from(pattern, text, i, j) == (j == text.len()),
        i < pattern.len() && pattern[i] == '*' ==> matches_from(pattern, text, i, j) == (
        matches_from(pattern, text, i + 1, j) || (j < text.len() && text[j] != '/' && matches_from(
            pattern,
            text,
            i,
            j + 1,
        ))),
        i < pattern.len() && pattern[i] == '?' ==> matches_from(pattern, text, i, j) == (j
            < text.len() && text[j] != '/' && matches_from(pattern, text, i + 1, j + 1)),
        i < pattern.len() && pattern[i] != '*' && pattern[i] != '?' ==> matches_from(
            pattern,
            text,
            i,
            j,
        ) == (j < text.len() && text[j] == pattern[i] && matches_from(
            pattern,
            text,
            i + 1,
            j + 1,
        )),
{
    let p = pattern.skip(i);
    let t = text.skip(j);
    if i < pattern.len() {
        assert(p[0] == pattern[i]);
        assert(p.skip(1) == pattern.skip(i + 1));
    }
    if j < text.len() {
        assert(t[0] == text[j]);
        assert(t.skip(1) == text.skip(j + 1));
    }
}

/// The row of the pattern's end: only the end of the text matches there.
fn last_row(n: usize) -> (row: Vec<bool>)
    ensures
        row@.len() == n,
        forall|j: int| 0 <= j < n ==> #[trigger] row@[j] == false,
{
    let mut row: Vec<bool> = Vec::new();
    let mut j: usize = 0;
    while j < n
        invariant
            j <= n,
            row@.len() == j,
            forall|k: int| 0 <= k < j ==> #[trigger] row@[k] == false,
        decreases n - j,
    {
        row.push(false);
        j += 1;
    }
    row
}

/// Whether `pattern` matches the whole of `text`.
pub fn pattern_matches(pattern: &Vec<char>, text: &Vec<char>) -> (matched: bool)
    ensures
        matched == glob_matches(pattern@, text@),
{
    let np = pattern.len();
    let nt = text.len();
    // `below` holds, for the part of the pattern from `i` on, whether it
    // matches the text from each `j` below the text's length on;
    // `below_end` holds the same for the empty rest of the text.
    let mut below: Vec<bool> = last_row(nt);
    let mut below_end: bool = true;
    let mut i: usize = np;
    proof {
        assert forall|j: int| 0 <= j < nt implies below@[j] == matches_from(
            pattern@,
            text@,
            np as int,
            j,
        ) by {
            lemma_matches_from(pattern@, text@, np as int, j);
        }
        lemma_matches_from(pattern@, text@, np as int, nt as int);
    }
    while i > 0
        invariant
            np == pattern.len(),
            nt == text.len(),
            i <= np,
            below@.len() == nt,
            forall|j: int|
                0 <= j < nt ==> #[trigger] below@[j] == matches_from(pattern@, text@, i as int, j),
            below_end == matches_from(pattern@, text@, i as int, nt as int),
        decreases i,
    {
        i -= 1;
        let c = pattern[i];
        let mut row: Vec<bool> = last_row(nt);
        let row_end: bool = c == '*' && below_end;
        proof {
            lemma_matches_from(pattern@, text@, i as int, nt as int);
        }
        let mut j: usize = nt;
        while j > 0
            invariant
                np == pattern.len(),
                nt == text.len(),
                i < np,
                j <= nt,
                c == pattern@[i as int],
                below@.len() == nt,
                row@.len() == nt,
                forall|k: int|
                    0 <= k < nt ==> #[trigger] below@[k] == matches_from(
                        pattern@,
                        text@,
                        i + 1,
                        k,
                    ),
                below_end == matches_from(pattern@, text@, i + 1, nt as int),
                forall|k: int|
                    j <= k < nt ==> #[trigger] row@[k] == matches_from(pattern@, text@, i as int, k),
                row_end == matches_from(pattern@, text@, i as int, nt as int),
            decreases j,
        {
            j -= 1;
            let here = text[j];
            let right: bool = if j + 1 < nt {
                row[j + 1]
            } else {
                row_end
            };
            let below_right: bool = if j + 1 < nt {
                below[j + 1]
            } else {
                below_end
            };
            let value: bool = if c == '*' {
                below[j] || (here != '/' && right)
            } else if c == '?' {
                here != '/' && below_right
            } else {
                here == c && below_right
            };
            proof {
                lemma_matches_from(pattern@, text@, i as int, j as int);
            }
            row.set(j, value);
        }
        below = row;
        below_end = row_end;
    }
    proof {
        assert(pattern@.skip(0) == pattern@);
        assert(text@.skip(0) == text@);
        lemma_matches_from(pattern@, text@, 0, 0);
    }
    if nt > 0 {
        below[0]
    } else {
        below_end
    }
}

/// The pattern with a `~` at its start replaced by the home directory. The
/// `~` stands for the home directory where it is the whole pattern or is
/// followed by `/`.
pub open spec fn expand_home(pattern: Seq<char>, home: Seq<char>) -> Seq<char> {
    if pattern.len() > 0 && pattern[0] == '~' && (pattern.len() == 1 || pattern[1] == '/') {
        home + pattern.skip(1)
    } else {
        pattern
    }
}

/// The pattern with a `~` at its start replaced by `home`.
pub fn expanded(pattern: &Vec<char>, home: &Vec<char>) -> (out: Vec<char>)
    ensures
        out@ == expand_home(pattern@, home@),
{
    let mut out: Vec<char> = Vec::new();
    let n = pattern.len();
    if n > 0 && pattern[0] == '~' && (n == 1 || pattern[1] == '/') {
        append_chars(&mut out, home);
        let rest = crate::text::copy_range(pattern, 1, n);
        append_chars(&mut out, &rest);
        assert(pattern@.subrange(1, n as int) == pattern@.skip(1));
        assert(out@ =~= home@ + pattern@.skip(1));
    } else {
        append_chars(&mut out, pattern);
        assert(out@ =~= pattern@);
    }
    out
}

/// Whether a trigger is a pattern for paths rather than the name of a file:
/// it is where it holds a `/`, a `*`, a `~` or a `?`.
pub open spec fn path_pattern(pattern: Seq<char>) -> bool {
    pattern.contains('/') || pattern.contains('*') || pattern.contains('~') || pattern.contains(
        '?',
    )
}

/// Whether a trigger is a pattern for paths rather than the name of a file.
pub fn is_path_pattern(pattern: &str) -> (b: bool)
    ensures
        b == path_pattern(pattern@),
{
    let v = to_chars(pattern);
    let n = v.len();
    assert(v@.subrange(0, n as int) == v@);
    proof {
        lemma_first_index(v@, '/');
        lemma_first_index(v@, '*');
        lemma_first_index(v@, '~');
        lemma_first_index(v@, '?');
    }
    find_char(&v, 0, n, '/') < n || find_char(&v, 0, n, '*') < n || find_char(&v, 0, n, '~') < n
        || find_char(&v, 0, n, '?') < n
}

} // verus!
