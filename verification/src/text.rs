//! Text as sequences of characters: whitespace, trimming, lines, decimal
//! numbers. Every function here is stated over `Seq<char>`, the view of a
//! `str`, and the executable versions work on `Vec<char>`.

use vstd::prelude::*;

verus! {

/// `String::push` appends one character to the end of the string. This is
/// what the documentation of the standard library says of it; it is taken
/// on trust.
pub assume_specification[ String::push ](s: &mut String, c: char)
    ensures
        final(s)@ == old(s)@.push(c),
;

// ---------------------------------------------------------------------------
// Conversions
// ---------------------------------------------------------------------------

/// The characters of `s`, in order.
pub fn to_chars(s: &str) -> (v: Vec<char>)
    ensures
        v@ == s@,
{
    let mut v: Vec<char> = Vec::new();
    for c in it: s.chars()
        invariant
            v@ == it.seq().take(it.index() as int),
    {
        v.push(c);
    }
    v
}

/// The string made of the characters `v[lo..hi]`.
pub(crate) fn range_to_string(v: &Vec<char>, lo: usize, hi: usize) -> (s: String)
    requires
        lo <= hi <= v.len(),
    ensures
        s@ == v@.subrange(lo as int, hi as int),
{
    let mut s = String::new();
    let mut i: usize = lo;
    while i < hi
        invariant
            lo <= i <= hi <= v.len(),
            s@ == v@.subrange(lo as int, i as int),
        decreases hi - i,
    {
        s.push(v[i]);
        i += 1;
    }
    s
}

/// The string made of the characters of `v`.
pub fn to_string(v: &Vec<char>) -> (s: String)
    ensures
        s@ == v@,
{
    let s = range_to_string(v, 0, v.len());
    assert(v@.subrange(0, v.len() as int) == v@);
    s
}

/// A copy of the characters `v[lo..hi]`.
pub(crate) fn copy_range(v: &Vec<char>, lo: usize, hi: usize) -> (w: Vec<char>)
    requires
        lo <= hi <= v.len(),
    ensures
        w@ == v@.subrange(lo as int, hi as int),
{
    let mut w: Vec<char> = Vec::new();
    let mut i: usize = lo;
    while i < hi
        invariant
            lo <= i <= hi <= v.len(),
            w@ == v@.subrange(lo as int, i as int),
        decreases hi - i,
    {
        w.push(v[i]);
        i += 1;
    }
    w
}

/// Appends the characters of `w` to `out`.
pub fn append_chars(out: &mut Vec<char>, w: &Vec<char>)
    ensures
        final(out)@ == old(out)@ + w@,
{
    let mut i: usize = 0;
    while i < w.len()
        invariant
            i <= w.len(),
            out@ == old(out)@ + w@.take(i as int),
        decreases w.len() - i,
    {
        out.push(w[i]);
        i += 1;
    }
    assert(w@.take(w.len() as int) == w@);
}

/// Appends the characters of `s` to `out`.
pub fn append_str(out: &mut Vec<char>, s: &str)
    ensures
        final(out)@ == old(out)@ + s@,
{
    for c in it: s.chars()
        invariant
            out@ == old(out)@ + it.seq().take(it.index() as int),
    {
        out.push(c);
    }
}

/// Whether the characters `v[lo..hi]` are exactly those of `w`.
pub(crate) fn range_equals(v: &Vec<char>, lo: usize, hi: usize, w: &Vec<char>) -> (b: bool)
    requires
        lo <= hi <= v.len(),
    ensures
        b == (v@.subrange(lo as int, hi as int) == w@),
{
    if hi - lo != w.len() {
        return false;
    }
    let mut i: usize = 0;
    while i < w.len()
        invariant
            lo <= hi <= v.len(),
            hi - lo == w.len(),
            i <= w.len(),
            forall|j: int| 0 <= j < i ==> v@[lo + j] == w@[j],
        decreases w.len() - i,
    {
        if v[lo + i] != w[i] {
            assert(v@.subrange(lo as int, hi as int)[i as int] != w@[i as int]);
            return false;
        }
        i += 1;
    }
    assert(v@.subrange(lo as int, hi as int) =~= w@);
    true
}

/// Whether `v` holds exactly the characters of `s`.
pub fn equals_str(v: &Vec<char>, s: &str) -> (b: bool)
    ensures
        b == (v@ == s@),
{
    let w = to_chars(s);
    assert(v@.subrange(0, v.len() as int) == v@);
    range_equals(v, 0, v.len(), &w)
}

// ---------------------------------------------------------------------------
// Whitespace and trimming
// ---------------------------------------------------------------------------

/// The characters with the Unicode property `White_Space`.
pub open spec fn is_whitespace(c: char) -> bool {
    let n = c as u32;
    ||| 0x09 <= n <= 0x0D
    ||| n == 0x20
    ||| n == 0x85
    ||| n == 0xA0
    ||| n == 0x1680
    ||| 0x2000 <= n <= 0x200A
    ||| n == 0x2028
    ||| n == 0x2029
    ||| n == 0x202F
    ||| n == 0x205F
    ||| n == 0x3000
}

pub fn char_is_whitespace(c: char) -> (b: bool)
    ensures
        b == is_whitespace(c),
{
    let n: u32 = c as u32;
    (0x09 <= n && n <= 0x0D) || n == 0x20 || n == 0x85 || n == 0xA0 || n == 0x1680 || (0x2000 <= n
        && n <= 0x200A) || n == 0x2028 || n == 0x2029 || n == 0x202F || n == 0x205F || n == 0x3000
}

/// `s` without the whitespace at its start.
pub open spec fn trim_start(s: Seq<char>) -> Seq<char>
    decreases s.len(),
{
    if s.len() > 0 && is_whitespace(s[0]) {
        trim_start(s.skip(1))
    } else {
        s
    }
}

/// `s` without the whitespace at its end.
pub open spec fn trim_end(s: Seq<char>) -> Seq<char>
    decreases s.len(),
{
    if s.len() > 0 && is_whitespace(s.last()) {
        trim_end(s.drop_last())
    } else {
        s
    }
}

/// `s` without the whitespace at either end.
pub open spec fn trim(s: Seq<char>) -> Seq<char> {
    trim_end(trim_start(s))
}

/// The first index in `lo..hi` that holds no whitespace, or `hi`.
pub(crate) fn skip_whitespace(v: &Vec<char>, lo: usize, hi: usize) -> (k: usize)
    requires
        lo <= hi <= v.len(),
    ensures
        lo <= k <= hi,
        v@.subrange(k as int, hi as int) == trim_start(v@.subrange(lo as int, hi as int)),
{
    let mut k: usize = lo;
    while k < hi && char_is_whitespace(v[k])
        invariant
            lo <= k <= hi <= v.len(),
            trim_start(v@.subrange(k as int, hi as int)) == trim_start(
                v@.subrange(lo as int, hi as int),
            ),
        decreases hi - k,
    {
        assert(v@.subrange(k as int, hi as int).skip(1) == v@.subrange(k + 1, hi as int));
        k += 1;
    }
    k
}

/// The end of `lo..hi` once the whitespace before `hi` is left out.
pub(crate) fn drop_whitespace(v: &Vec<char>, lo: usize, hi: usize) -> (k: usize)
    requires
        lo <= hi <= v.len(),
    ensures
        lo <= k <= hi,
        v@.subrange(lo as int, k as int) == trim_end(v@.subrange(lo as int, hi as int)),
{
    let mut k: usize = hi;
    while k > lo && char_is_whitespace(v[k - 1])
        invariant
            lo <= k <= hi <= v.len(),
            trim_end(v@.subrange(lo as int, k as int)) == trim_end(
                v@.subrange(lo as int, hi as int),
            ),
        decreases k - lo,
    {
        assert(v@.subrange(lo as int, k as int).drop_last() == v@.subrange(lo as int, k - 1));
        k -= 1;
    }
    k
}

/// The bounds of `v[lo..hi]` trimmed at both ends.
pub(crate) fn trim_bounds(v: &Vec<char>, lo: usize, hi: usize) -> (r: (usize, usize))
    requires
        lo <= hi <= v.len(),
    ensures
        lo <= r.0 <= r.1 <= hi,
        v@.subrange(r.0 as int, r.1 as int) == trim(v@.subrange(lo as int, hi as int)),
{
    let a = skip_whitespace(v, lo, hi);
    let b = drop_whitespace(v, a, hi);
    (a, b)
}

/// The text without the whitespace at either end.
pub fn trimmed(v: &Vec<char>) -> (w: Vec<char>)
    ensures
        w@ == trim(v@),
{
    assert(v@.subrange(0, v.len() as int) == v@);
    let (a, b) = trim_bounds(v, 0, v.len());
    copy_range(v, a, b)
}

/// Trimming leaves a part of the text: nothing is added.
pub proof fn lemma_trim_start_is_suffix(s: Seq<char>)
    ensures
        trim_start(s).len() <= s.len(),
        trim_start(s) == s.skip(s.len() - trim_start(s).len()),
        trim_start(s).len() > 0 ==> !is_whitespace(trim_start(s)[0]),
    decreases s.len(),
{
    if s.len() > 0 && is_whitespace(s[0]) {
        lemma_trim_start_is_suffix(s.skip(1));
        let t = trim_start(s.skip(1));
        assert(s.skip(1).skip(s.skip(1).len() - t.len()) == s.skip(s.len() - t.len()));
    } else {
        assert(s.skip(0) == s);
    }
}

/// Trimming leaves a part of the text: nothing is added.
pub proof fn lemma_trim_end_is_prefix(s: Seq<char>)
    ensures
        trim_end(s).len() <= s.len(),
        trim_end(s) == s.take(trim_end(s).len() as int),
        trim_end(s).len() > 0 ==> !is_whitespace(trim_end(s).last()),
    decreases s.len(),
{
    if s.len() > 0 && is_whitespace(s.last()) {
        lemma_trim_end_is_prefix(s.drop_last());
        let t = trim_end(s.drop_last());
        assert(s.drop_last().take(t.len() as int) == s.take(t.len() as int));
    } else {
        assert(s.take(s.len() as int) == s);
    }
}

// ---------------------------------------------------------------------------
// Searching
// ---------------------------------------------------------------------------

/// The index of the first `c` in `s`, or the length of `s` where there is none.
pub open spec fn first_index(s: Seq<char>, c: char) -> int
    decreases s.len(),
{
    if s.len() == 0 {
        0
    } else if s[0] == c {
        0
    } else {
        1 + first_index(s.skip(1), c)
    }
}

pub proof fn lemma_first_index(s: Seq<char>, c: char)
    ensures
        0 <= first_index(s, c) <= s.len(),
        first_index(s, c) < s.len() ==> s[first_index(s, c)] == c,
        forall|j: int| 0 <= j < first_index(s, c) ==> s[j] != c,
        first_index(s, c) < s.len() <==> s.contains(c),
    decreases s.len(),
{
    if s.len() == 0 {
    } else if s[0] == c {
    } else {
        lemma_first_index(s.skip(1), c);
        let k = first_index(s.skip(1), c);
        assert forall|j: int| 0 <= j < 1 + k implies s[j] != c by {
            if j > 0 {
                assert(s.skip(1)[j - 1] == s[j]);
            }
        }
        if k < s.skip(1).len() {
            assert(s.skip(1)[k] == s[k + 1]);
        }
        if s.contains(c) {
            let j = choose|j: int| 0 <= j < s.len() && s[j] == c;
            assert(s.skip(1)[j - 1] == c);
        }
    }
}

/// A position is the first index of `c` where it holds `c`, or is the end,
/// and nothing before it holds `c`.
pub proof fn lemma_first_index_is(s: Seq<char>, c: char, k: int)
    requires
        0 <= k <= s.len(),
        k < s.len() ==> s[k] == c,
        forall|j: int| 0 <= j < k ==> s[j] != c,
    ensures
        first_index(s, c) == k,
{
    lemma_first_index(s, c);
}

/// The first index in `lo..hi` that holds `c`, or `hi`.
pub(crate) fn find_char(v: &Vec<char>, lo: usize, hi: usize, c: char) -> (k: usize)
    requires
        lo <= hi <= v.len(),
    ensures
        lo <= k <= hi,
        k - lo == first_index(v@.subrange(lo as int, hi as int), c),
{
    let mut k: usize = lo;
    while k < hi && v[k] != c
        invariant
            lo <= k <= hi <= v.len(),
            forall|j: int| lo <= j < k ==> v@[j] != c,
        decreases hi - k,
    {
        k += 1;
    }
    proof {
        lemma_first_index_is(v@.subrange(lo as int, hi as int), c, k - lo);
    }
    k
}

/// The index of the first `c` in `v`, or the length of `v` where there is
/// none.
pub fn position(v: &Vec<char>, c: char) -> (k: usize)
    ensures
        k == first_index(v@, c),
{
    assert(v@.subrange(0, v.len() as int) == v@);
    find_char(v, 0, v.len(), c)
}

// ---------------------------------------------------------------------------
// Lines
// ---------------------------------------------------------------------------

/// The views of a list of lines.
pub open spec fn line_views(lines: Seq<Vec<char>>) -> Seq<Seq<char>> {
    lines.map_values(|l: Vec<char>| l@)
}

/// A line without the carriage return that ended it, if one did.
pub open spec fn strip_carriage_return(line: Seq<char>) -> Seq<char> {
    if line.len() > 0 && line.last() == '\r' {
        line.drop_last()
    } else {
        line
    }
}

/// The lines of a text. A line ends at a line feed, or at a carriage return
/// followed by one; neither belongs to the line. The last line need not be
/// ended, and an empty text has no line.
pub open spec fn split_lines(s: Seq<char>) -> Seq<Seq<char>>
    decreases s.len(),
{
    let k = first_index(s, '\n');
    if s.len() == 0 {
        Seq::empty()
    } else if 0 <= k < s.len() {
        seq![strip_carriage_return(s.take(k))] + split_lines(s.skip(k + 1))
    } else {
        seq![s]
    }
}

/// The lines of `v`.
pub fn lines_of(v: &Vec<char>) -> (lines: Vec<Vec<char>>)
    ensures
        line_views(lines@) == split_lines(v@),
{
    let n = v.len();
    let mut lines: Vec<Vec<char>> = Vec::new();
    let mut pos: usize = 0;
    assert(v@.skip(0) == v@);
    assert(line_views(lines@) =~= Seq::<Seq<char>>::empty());
    while pos < n
        invariant
            n == v.len(),
            pos <= n,
            split_lines(v@) == line_views(lines@) + split_lines(v@.skip(pos as int)),
        decreases n - pos,
    {
        let ghost rest = v@.skip(pos as int);
        let ghost before = lines@;
        assert(rest == v@.subrange(pos as int, n as int));
        let k = find_char(v, pos, n, '\n');
        proof {
            lemma_first_index(rest, '\n');
        }
        if k == n {
            let line = copy_range(v, pos, n);
            lines.push(line);
            assert(split_lines(rest) == seq![rest]);
            assert(v@.skip(n as int).len() == 0);
            assert(line_views(lines@) =~= line_views(before) + seq![rest]);
            pos = n;
        } else {
            let end: usize = if k > pos && v[k - 1] == '\r' {
                (k - 1) as usize
            } else {
                k
            };
            let line = copy_range(v, pos, end);
            lines.push(line);
            assert(rest.take(k - pos) == v@.subrange(pos as int, k as int));
            if k > pos {
                assert(v@.subrange(pos as int, k as int).last() == v@[k - 1]);
                assert(v@.subrange(pos as int, k as int).drop_last() == v@.subrange(
                    pos as int,
                    k - 1,
                ));
            }
            assert(line@ == strip_carriage_return(rest.take(k - pos)));
            assert(rest.skip(k - pos + 1) == v@.skip(k + 1));
            assert(line_views(lines@) =~= line_views(before) + seq![line@]);
            pos = k + 1;
        }
    }
    assert(split_lines(v@.skip(pos as int)) == Seq::<Seq<char>>::empty());
    lines
}

/// The lines joined by single line feeds.
pub open spec fn join_lines(lines: Seq<Seq<char>>) -> Seq<char>
    decreases lines.len(),
{
    if lines.len() == 0 {
        Seq::empty()
    } else if lines.len() == 1 {
        lines[0]
    } else {
        join_lines(lines.drop_last()) + seq!['\n'] + lines.last()
    }
}

/// The text with `lines` as its lines, a line feed between each two.
pub fn join(lines: &Vec<Vec<char>>) -> (out: Vec<char>)
    ensures
        out@ == join_lines(line_views(lines@)),
{
    let ghost all = line_views(lines@);
    let mut out: Vec<char> = Vec::new();
    let mut i: usize = 0;
    while i < lines.len()
        invariant
            i <= lines.len(),
            all == line_views(lines@),
            out@ == join_lines(all.take(i as int)),
        decreases lines.len() - i,
    {
        assert(all.take(i + 1).drop_last() == all.take(i as int));
        assert(all.take(i + 1).last() == lines@[i as int]@);
        if i > 0 {
            out.push('\n');
        }
        append_chars(&mut out, &lines[i]);
        i += 1;
    }
    assert(all.take(lines.len() as int) == all);
    out
}

// ---------------------------------------------------------------------------
// Decimal numbers
// ---------------------------------------------------------------------------

/// The character of a decimal digit.
pub open spec fn digit_char(d: int) -> char {
    if d == 0 {
        '0'
    } else if d == 1 {
        '1'
    } else if d == 2 {
        '2'
    } else if d == 3 {
        '3'
    } else if d == 4 {
        '4'
    } else if d == 5 {
        '5'
    } else if d == 6 {
        '6'
    } else if d == 7 {
        '7'
    } else if d == 8 {
        '8'
    } else {
        '9'
    }
}

/// `n` in decimal, without leading zeros.
pub open spec fn decimal(n: nat) -> Seq<char>
    decreases n,
{
    if n < 10 {
        seq![digit_char(n as int)]
    } else {
        decimal(n / 10).push(digit_char((n % 10) as int))
    }
}

fn digit_to_char(d: u8) -> (c: char)
    requires
        d < 10,
    ensures
        c == digit_char(d as int),
{
    if d == 0 {
        '0'
    } else if d == 1 {
        '1'
    } else if d == 2 {
        '2'
    } else if d == 3 {
        '3'
    } else if d == 4 {
        '4'
    } else if d == 5 {
        '5'
    } else if d == 6 {
        '6'
    } else if d == 7 {
        '7'
    } else if d == 8 {
        '8'
    } else {
        '9'
    }
}

/// Appends `n` in decimal to `out`.
pub fn push_decimal(out: &mut Vec<char>, n: u64)
    ensures
        final(out)@ == old(out)@ + decimal(n as nat),
    decreases n,
{
    if n >= 10 {
        push_decimal(out, n / 10);
    }
    let d: u8 = (n % 10) as u8;
    out.push(digit_to_char(d));
    assert(final(out)@ =~= old(out)@ + decimal(n as nat));
}

/// Whether `c` is one of the ten decimal digits.
pub open spec fn is_digit(c: char) -> bool {
    '0' <= c <= '9'
}

/// The number that a decimal digit stands for.
pub open spec fn digit_value(c: char) -> nat {
    (c as u32 - '0' as u32) as nat
}

/// The number that a run of decimal digits stands for.
pub open spec fn digits_value(s: Seq<char>) -> nat
    decreases s.len(),
{
    if s.len() == 0 {
        0
    } else {
        digits_value(s.drop_last()) * 10 + digit_value(s.last())
    }
}

/// Whether every character of `s` is a decimal digit.
pub open spec fn all_digits(s: Seq<char>) -> bool {
    forall|i: int| 0 <= i < s.len() ==> is_digit(#[trigger] s[i])
}

/// The number that `s` denotes as an unsigned 64-bit integer: decimal digits,
/// at least one, after an optional `+`, and no more than the type holds.
pub open spec fn parsed_u64(s: Seq<char>) -> Option<u64> {
    let d = if s.len() > 0 && s[0] == '+' {
        s.skip(1)
    } else {
        s
    };
    if d.len() > 0 && all_digits(d) && digits_value(d) <= u64::MAX {
        Some(digits_value(d) as u64)
    } else {
        None
    }
}

/// More digits never make a smaller number.
pub proof fn lemma_digits_value_grows(s: Seq<char>, k: int)
    requires
        0 <= k <= s.len(),
    ensures
        digits_value(s.take(k)) <= digits_value(s),
    decreases s.len() - k,
{
    if k == s.len() {
        assert(s.take(k) == s);
    } else {
        lemma_digits_value_grows(s, k + 1);
        assert(s.take(k + 1).drop_last() == s.take(k));
    }
}

/// Reads `v[lo..hi]` as an unsigned 64-bit integer.
pub(crate) fn parse_u64(v: &Vec<char>, lo: usize, hi: usize) -> (r: Option<u64>)
    requires
        lo <= hi <= v.len(),
    ensures
        r == parsed_u64(v@.subrange(lo as int, hi as int)),
{
    let ghost s = v@.subrange(lo as int, hi as int);
    let start: usize = if lo < hi && v[lo] == '+' {
        lo + 1
    } else {
        lo
    };
    let ghost d = v@.subrange(start as int, hi as int);
    assert(d == if s.len() > 0 && s[0] == '+' {
        s.skip(1)
    } else {
        s
    });
    if start == hi {
        return None;
    }
    let mut acc: u64 = 0;
    let mut i: usize = start;
    while i < hi
        invariant
            start <= i <= hi <= v.len(),
            start < hi,
            s == v@.subrange(lo as int, hi as int),
            d == v@.subrange(start as int, hi as int),
            d == if s.len() > 0 && s[0] == '+' {
                s.skip(1)
            } else {
                s
            },
            all_digits(d.take(i - start)),
            acc == digits_value(d.take(i - start)),
        decreases hi - i,
    {
        let c = v[i];
        assert(c == d[i - start]);
        assert(d.take(i - start + 1).drop_last() == d.take(i - start));
        assert(d.take(i - start + 1).last() == c);
        if !('0' <= c && c <= '9') {
            assert(!is_digit(d[i - start]));
            return None;
        }
        let digit: u64 = (c as u32 - '0' as u32) as u64;
        if acc > (u64::MAX - digit) / 10 {
            proof {
                lemma_digits_value_grows(d, i - start + 1);
                assert(acc * 10 + digit > u64::MAX);
                assert(digits_value(d.take(i - start + 1)) == acc * 10 + digit);
            }
            return None;
        }
        acc = acc * 10 + digit;
        assert(all_digits(d.take(i - start + 1))) by {
            assert forall|j: int| 0 <= j < i - start + 1 implies is_digit(
                #[trigger] d.take(i - start + 1)[j],
            ) by {
                if j < i - start {
                    assert(d.take(i - start)[j] == d.take(i - start + 1)[j]);
                }
            }
        }
        i += 1;
    }
    assert(d.take(hi - start) == d);
    Some(acc)
}

/// Reads a text as an unsigned 64-bit integer.
pub fn parse_number(v: &Vec<char>) -> (r: Option<u64>)
    ensures
        r == parsed_u64(v@),
{
    assert(v@.subrange(0, v.len() as int) == v@);
    parse_u64(v, 0, v.len())
}

// ---------------------------------------------------------------------------
// Laws of text
// ---------------------------------------------------------------------------

/// A text that neither starts nor ends with whitespace is its own trimmed
/// form.
pub proof fn lemma_trim_keeps(s: Seq<char>)
    requires
        s.len() > 0 ==> !is_whitespace(s[0]) && !is_whitespace(s.last()),
    ensures
        trim(s) == s,
{
}

/// A text that is its own trimmed form neither starts nor ends with
/// whitespace.
pub proof fn lemma_trimmed_ends(s: Seq<char>)
    requires
        trim(s) == s,
        s.len() > 0,
    ensures
        !is_whitespace(s[0]),
        !is_whitespace(s.last()),
{
    lemma_trim_start_is_suffix(s);
    lemma_trim_end_is_prefix(trim_start(s));
    assert(trim_start(s).len() == s.len());
    assert(s.skip(0) == s);
}

/// The first line of a text ends at its first line feed.
pub proof fn lemma_split_lines_first(line: Seq<char>, rest: Seq<char>)
    requires
        !line.contains('\n'),
    ensures
        split_lines(line + seq!['\n'] + rest) == seq![strip_carriage_return(line)] + split_lines(
            rest,
        ),
{
    let s = line + seq!['\n'] + rest;
    let k = line.len() as int;
    assert(s[k] == '\n');
    assert forall|j: int| 0 <= j < k implies s[j] != '\n' by {
        assert(s[j] == line[j]);
        assert(line.contains(line[j]));
    }
    lemma_first_index_is(s, '\n', k);
    assert(s.take(k) == line);
    assert(s.skip(k + 1) == rest);
}

/// A text without a line feed that is not empty is one line.
pub proof fn lemma_split_lines_single(line: Seq<char>)
    requires
        line.len() > 0,
        !line.contains('\n'),
    ensures
        split_lines(line) == seq![line],
{
    lemma_first_index(line, '\n');
}

/// No line of a text holds a line feed.
pub proof fn lemma_lines_hold_no_line_feed(s: Seq<char>, i: int)
    requires
        0 <= i < split_lines(s).len(),
    ensures
        !split_lines(s)[i].contains('\n'),
    decreases s.len(),
{
    let k = first_index(s, '\n');
    lemma_first_index(s, '\n');
    if s.len() == 0 {
    } else if k < s.len() {
        let first = strip_carriage_return(s.take(k));
        let rest = split_lines(s.skip(k + 1));
        if i == 0 {
            if first.contains('\n') {
                let j = choose|j: int| 0 <= j < first.len() && first[j] == '\n';
                assert(first[j] == s[j]);
            }
        } else {
            assert(split_lines(s)[i] == rest[i - 1]);
            lemma_lines_hold_no_line_feed(s.skip(k + 1), i - 1);
        }
    } else {
    }
}

/// A text that is split where a line ends has the lines of its two parts.
pub proof fn lemma_split_lines_at_line_end(front: Seq<char>, back: Seq<char>)
    requires
        front.len() == 0 || front.last() == '\n',
    ensures
        split_lines(front + back) == split_lines(front) + split_lines(back),
    decreases front.len(),
{
    if front.len() == 0 {
        assert(front + back == back);
        assert(split_lines(front) + split_lines(back) == split_lines(back));
    } else {
        let whole = front + back;
        let k = first_index(front, '\n');
        lemma_first_index(front, '\n');
        assert(front.contains(front[front.len() - 1]));
        assert(whole[k] == '\n');
        assert forall|j: int| 0 <= j < k implies whole[j] != '\n' by {
            assert(whole[j] == front[j]);
        }
        lemma_first_index_is(whole, '\n', k);
        assert(whole.take(k) == front.take(k));
        let front_rest = front.skip(k + 1);
        assert(whole.skip(k + 1) == front_rest + back);
        if front_rest.len() > 0 {
            assert(front_rest.last() == front.last());
        }
        lemma_split_lines_at_line_end(front_rest, back);
        assert(split_lines(whole) == seq![strip_carriage_return(front.take(k))] + (split_lines(
            front_rest,
        ) + split_lines(back)));
    }
}

/// What stands before the `i`-th line in the joined text: the lines before
/// it, joined, and a line feed.
pub open spec fn joined_before(lines: Seq<Seq<char>>, i: int) -> Seq<char> {
    if i == 0 {
        Seq::empty()
    } else {
        join_lines(lines.take(i)) + seq!['\n']
    }
}

/// What stands after the `i`-th line in the joined text: a line feed and
/// the lines after it, joined.
pub open spec fn joined_after(lines: Seq<Seq<char>>, i: int) -> Seq<char> {
    if i == lines.len() - 1 {
        Seq::empty()
    } else {
        seq!['\n'] + join_lines(lines.skip(i + 1))
    }
}

/// The joined text is what stands before a line, the line, and what stands
/// after it.
pub proof fn lemma_join_lines_around(lines: Seq<Seq<char>>, i: int)
    requires
        0 <= i < lines.len(),
    ensures
        join_lines(lines) == joined_before(lines, i) + lines[i] + joined_after(lines, i),
    decreases lines.len(),
{
    let n = lines.len() as int;
    if i == n - 1 {
        assert(lines.take(i) == lines.drop_last());
        if n == 1 {
            assert(join_lines(lines) =~= joined_before(lines, i) + lines[i] + joined_after(
                lines,
                i,
            ));
        } else {
            assert(join_lines(lines) =~= joined_before(lines, i) + lines[i] + joined_after(
                lines,
                i,
            ));
        }
    } else {
        let shorter = lines.drop_last();
        lemma_join_lines_around(shorter, i);
        assert(shorter.take(i) == lines.take(i));
        assert(shorter[i] == lines[i]);
        let tail = lines.skip(i + 1);
        assert(tail.last() == lines.last());
        if i == n - 2 {
            assert(tail.len() == 1);
            assert(join_lines(tail) == lines.last());
        } else {
            assert(tail.drop_last() == shorter.skip(i + 1));
        }
        assert(join_lines(lines) =~= joined_before(lines, i) + lines[i] + joined_after(lines, i));
    }
}

/// Whitespace at the end of a text does not show in its trimmed form.
pub proof fn lemma_trim_ignores_end(s: Seq<char>, c: char)
    requires
        is_whitespace(c),
    ensures
        trim(s.push(c)) == trim(s),
    decreases s.len(),
{
    let longer = s.push(c);
    if s.len() == 0 {
        assert(longer.skip(1) =~= s);
    } else if is_whitespace(s[0]) {
        assert(longer[0] == s[0]);
        assert(longer.skip(1) == s.skip(1).push(c));
        lemma_trim_ignores_end(s.skip(1), c);
    } else {
        assert(longer[0] == s[0]);
        assert(trim_start(longer) == longer);
        assert(longer.drop_last() == s);
    }
}

/// The carriage return that ends a line does not show in its trimmed form.
pub proof fn lemma_trim_ignores_carriage_return(line: Seq<char>)
    ensures
        trim(strip_carriage_return(line)) == trim(line),
{
    if line.len() > 0 && line.last() == '\r' {
        lemma_trim_ignores_end(line.drop_last(), '\r');
        assert(line.drop_last().push('\r') == line);
    }
}

/// A number in decimal is a run of digits that stands for the number.
pub proof fn lemma_decimal(n: nat)
    ensures
        decimal(n).len() > 0,
        all_digits(decimal(n)),
        digits_value(decimal(n)) == n,
    decreases n,
{
    if n < 10 {
        let s = decimal(n);
        assert(s.drop_last().len() == 0);
        assert(digits_value(s.drop_last()) == 0);
        assert(s.last() == digit_char(n as int));
    } else {
        lemma_decimal(n / 10);
        let head = decimal(n / 10);
        let s = decimal(n);
        assert(s == head.push(digit_char((n % 10) as int)));
        assert(s.drop_last() == head);
        assert(s.last() == digit_char((n % 10) as int));
        assert forall|i: int| 0 <= i < s.len() implies is_digit(#[trigger] s[i]) by {
            if i < head.len() {
                assert(s[i] == head[i]);
            }
        }
    }
}

/// Reading a number back from its decimal form gives the number.
pub proof fn lemma_decimal_round_trip(n: u64)
    ensures
        trim(decimal(n as nat)) == decimal(n as nat),
        strip_carriage_return(decimal(n as nat)) == decimal(n as nat),
        !decimal(n as nat).contains('\n'),
        parsed_u64(decimal(n as nat)) == Some(n),
{
    let s = decimal(n as nat);
    lemma_decimal(n as nat);
    assert(is_digit(s[0]));
    assert(is_digit(s.last()));
    lemma_trim_keeps(s);
    if s.contains('\n') {
        let j = choose|j: int| 0 <= j < s.len() && s[j] == '\n';
        assert(is_digit(s[j]));
    }
}

} // verus!
