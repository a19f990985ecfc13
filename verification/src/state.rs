//! The state that was applied last: what is kept of it between two runs,
//! how it is written down and read back, and whether the terminal has to be
//! painted again.

use crate::config::{ConfigSource, ConfigSourceView};
use crate::text::{
    append_str, decimal, lemma_decimal_round_trip, lemma_split_lines_first,
    lemma_split_lines_single, lemma_trim_keeps, lemma_trimmed_ends, line_views, lines_of,
    parse_u64, parsed_u64, push_decimal, range_equals, range_to_string, split_lines, to_chars,
    to_string, trim, trim_bounds,
};
use vstd::prelude::*;

verus! {

// ---------------------------------------------------------------------------
// States
// ---------------------------------------------------------------------------

/// The kind of a color source.
#[derive(Debug, Clone, Copy, PartialEq, Eq, Structural)]
pub enum ConfigSourceType {
    /// A marker file.
    Explicit,
    /// A directory that matches a trigger pattern.
    TriggerPath,
    /// A directory that holds a trigger file.
    TriggerFile,
}

/// What is kept of an applied source: the path that identifies it, the
/// fingerprint by which a change of it shows, and its kind. The fingerprint
/// of a marker file is its modification time in seconds; the trigger
/// sources have no file that could change, and their fingerprint is 0.
#[derive(Debug, Clone, PartialEq, Eq)]
pub struct ConfigState {
    pub path: String,
    pub mtime: u64,
    pub source_type: ConfigSourceType,
}

/// A state with its path as a sequence of characters.
pub struct ConfigStateView {
    pub path: Seq<char>,
    pub mtime: u64,
    pub source_type: ConfigSourceType,
}

impl View for ConfigState {
    type V = ConfigStateView;

    open spec fn view(&self) -> ConfigStateView {
        ConfigStateView { path: self.path@, mtime: self.mtime, source_type: self.source_type }
    }
}

/// An optional state, seen through its view.
pub open spec fn state_view(state: Option<ConfigState>) -> Option<ConfigStateView> {
    match state {
        Some(s) => Some(s@),
        None => None,
    }
}

/// An optional borrowed state, seen through its view.
pub open spec fn state_ref_view(state: Option<&ConfigState>) -> Option<ConfigStateView> {
    match state {
        Some(s) => Some(s@),
        None => None,
    }
}

fn same_kind(a: ConfigSourceType, b: ConfigSourceType) -> (same: bool)
    ensures
        same == (a == b),
{
    match (a, b) {
        (ConfigSourceType::Explicit, ConfigSourceType::Explicit) => true,
        (ConfigSourceType::TriggerPath, ConfigSourceType::TriggerPath) => true,
        (ConfigSourceType::TriggerFile, ConfigSourceType::TriggerFile) => true,
        _ => false,
    }
}

impl ConfigState {
    /// Whether two states have the same path, fingerprint and kind.
    pub fn same_as(&self, other: &ConfigState) -> (same: bool)
        ensures
            same == (self@ == other@),
    {
        self.path == other.path && self.mtime == other.mtime && same_kind(
            self.source_type,
            other.source_type,
        )
    }
}

/// The state of a source. The fingerprint of a marker file is its
/// modification time, and without one there is no state; the trigger
/// sources have the fingerprint 0.
pub open spec fn state_of_source(source: ConfigSourceView, mtime: Option<u64>) -> Option<
    ConfigStateView,
> {
    match source {
        ConfigSourceView::Termtint(path) => match mtime {
            Some(m) => Some(
                ConfigStateView { path, mtime: m, source_type: ConfigSourceType::Explicit },
            ),
            None => None,
        },
        ConfigSourceView::TriggerPath(dir) => Some(
            ConfigStateView { path: dir, mtime: 0, source_type: ConfigSourceType::TriggerPath },
        ),
        ConfigSourceView::TriggerFile(dir) => Some(
            ConfigStateView { path: dir, mtime: 0, source_type: ConfigSourceType::TriggerFile },
        ),
    }
}

/// The state of the source that was found. `mtime` is the modification time
/// of the marker file in seconds, where it could be had.
pub fn current_state(source: &ConfigSource, mtime: Option<u64>) -> (state: Option<ConfigState>)
    ensures
        state_view(state) == state_of_source(source@, mtime),
{
    match source {
        ConfigSource::Termtint(path) => match mtime {
            Some(m) => Some(
                ConfigState {
                    path: path.clone(),
                    mtime: m,
                    source_type: ConfigSourceType::Explicit,
                },
            ),
            None => None,
        },
        ConfigSource::TriggerPath(dir) => Some(
            ConfigState { path: dir.clone(), mtime: 0, source_type: ConfigSourceType::TriggerPath },
        ),
        ConfigSource::TriggerFile(dir) => Some(
            ConfigState { path: dir.clone(), mtime: 0, source_type: ConfigSourceType::TriggerFile },
        ),
    }
}

// ---------------------------------------------------------------------------
// The decision
// ---------------------------------------------------------------------------

/// Whether the terminal has to be painted again. With no source now and
/// none before there is nothing to do. A source that went away or came asks
/// for it. With a source now and one before it is asked for where they
/// differ in path, fingerprint or kind, or where it is forced.
pub open spec fn repaint_needed(
    current: Option<ConfigStateView>,
    last: Option<ConfigStateView>,
    force: bool,
) -> bool {
    match (current, last) {
        (None, None) => false,
        (None, Some(_)) => true,
        (Some(_), None) => true,
        (Some(c), Some(l)) => c != l || force,
    }
}

/// Decides whether the terminal has to be painted again, from the state of
/// the source found now and the state that was applied last.
pub fn should_repaint(current: Option<&ConfigState>, last: Option<&ConfigState>, force: bool) -> (repaint:
    bool)
    ensures
        repaint == repaint_needed(state_ref_view(current), state_ref_view(last), force),
{
    match (current, last) {
        (None, None) => false,
        (None, Some(_)) => true,
        (Some(_), None) => true,
        (Some(c), Some(l)) => !c.same_as(l) || force,
    }
}

/// What is done to the terminal and to the record of the last state.
#[derive(Debug, Clone, Copy, PartialEq, Eq, Structural)]
pub enum ApplyAction {
    /// The colors are in place: nothing is emitted, nothing is written.
    Keep,
    /// The colors of the current source are emitted, and its state is
    /// written down once that has succeeded.
    Apply,
    /// The terminal is reset and the record is deleted.
    ResetAndClear,
    /// The terminal is reset; there is no record to delete.
    Reset,
}

/// The action for a current and a last state. A source paints where a
/// repaint is needed and is kept where not. Without a source the terminal
/// is reset, also where nothing was applied before.
pub open spec fn action_for(
    current: Option<ConfigStateView>,
    last: Option<ConfigStateView>,
    force: bool,
) -> ApplyAction {
    match current {
        Some(_) => if repaint_needed(current, last, force) {
            ApplyAction::Apply
        } else {
            ApplyAction::Keep
        },
        None => if last is Some {
            ApplyAction::ResetAndClear
        } else {
            ApplyAction::Reset
        },
    }
}

/// Decides what is done for the state of the source found now and the state
/// that was applied last.
pub fn decide_apply(current: Option<&ConfigState>, last: Option<&ConfigState>, force: bool) -> (action:
    ApplyAction)
    ensures
        action == action_for(state_ref_view(current), state_ref_view(last), force),
{
    match current {
        Some(_) => if should_repaint(current, last, force) {
            ApplyAction::Apply
        } else {
            ApplyAction::Keep
        },
        None => match last {
            Some(_) => ApplyAction::ResetAndClear,
            None => ApplyAction::Reset,
        },
    }
}

/// A state that was applied and is found again unchanged asks for no
/// repaint; a state seen for the first time, or one that differs from the
/// last, asks for one.
pub proof fn lemma_repaint_is_idempotent(state: ConfigStateView, other: ConfigStateView)
    ensures
        repaint_needed(Some(state), None, false),
        other != state ==> repaint_needed(Some(state), Some(other), false),
        !repaint_needed(Some(state), Some(state), false),
        action_for(Some(state), Some(state), false) == ApplyAction::Keep,
{
}

/// Where no source is found and one was applied before, the terminal is
/// repainted, by a reset, and the record is deleted.
pub proof fn lemma_lost_source_resets(last: ConfigStateView, force: bool)
    ensures
        repaint_needed(None, Some(last), force),
        action_for(None, Some(last), force) == ApplyAction::ResetAndClear,
{
}

// ---------------------------------------------------------------------------
// The record
// ---------------------------------------------------------------------------

/// The tag under which a kind is written down.
pub open spec fn kind_tag(kind: ConfigSourceType) -> Seq<char> {
    match kind {
        ConfigSourceType::Explicit => "Explicit"@,
        ConfigSourceType::TriggerPath => "TriggerPath"@,
        ConfigSourceType::TriggerFile => "TriggerFile"@,
    }
}

/// The kind that a tag stands for. Two older tags are still read, and any
/// other text stands for a marker file.
pub open spec fn kind_of_tag(tag: Seq<char>) -> ConfigSourceType {
    if tag == "TriggerPath"@ || tag == "PathGlob"@ {
        ConfigSourceType::TriggerPath
    } else if tag == "TriggerFile"@ || tag == "Triggered"@ {
        ConfigSourceType::TriggerFile
    } else {
        ConfigSourceType::Explicit
    }
}

/// The record of a state: its path, its fingerprint in decimal and the tag
/// of its kind, on three lines.
pub open spec fn state_record(state: ConfigStateView) -> Seq<char> {
    state.path + seq!['\n'] + decimal(state.mtime as nat) + seq!['\n'] + kind_tag(
        state.source_type,
    )
}

/// The state that a record holds. The first line is the path, the second
/// the fingerprint, the third the tag of the kind; each is trimmed. A record
/// with fewer than two lines, with an empty path or with a second line that
/// is no number holds no state. A record without a third line is one of a
/// marker file.
pub open spec fn parsed_state(content: Seq<char>) -> Option<ConfigStateView> {
    let lines = split_lines(content);
    if lines.len() < 2 {
        None
    } else {
        match parsed_u64(trim(lines[1])) {
            None => None,
            Some(mtime) => if trim(lines[0]).len() == 0 {
                None
            } else {
                Some(
                    ConfigStateView {
                        path: trim(lines[0]),
                        mtime,
                        source_type: if lines.len() >= 3 {
                            kind_of_tag(trim(lines[2]))
                        } else {
                            ConfigSourceType::Explicit
                        },
                    },
                )
            },
        }
    }
}

/// The kind that the trimmed `line` stands for.
fn read_kind(line: &Vec<char>) -> (kind: ConfigSourceType)
    ensures
        kind == kind_of_tag(trim(line@)),
{
    assert(line@.subrange(0, line.len() as int) == line@);
    let (a, b) = trim_bounds(line, 0, line.len());
    let trigger_path = to_chars("TriggerPath");
    let path_glob = to_chars("PathGlob");
    let trigger_file = to_chars("TriggerFile");
    let triggered = to_chars("Triggered");
    if range_equals(line, a, b, &trigger_path) || range_equals(line, a, b, &path_glob) {
        ConfigSourceType::TriggerPath
    } else if range_equals(line, a, b, &trigger_file) || range_equals(line, a, b, &triggered) {
        ConfigSourceType::TriggerFile
    } else {
        ConfigSourceType::Explicit
    }
}

/// Reads the record of the last state. `content` is what the record file
/// holds. A record that is malformed holds no state: that is no error.
pub fn read_last_config_state(content: &str) -> (state: Option<ConfigState>)
    ensures
        state_view(state) == parsed_state(content@),
{
    let chars = to_chars(content);
    let lines = lines_of(&chars);
    let ghost all = line_views(lines@);
    if lines.len() < 2 {
        return None;
    }
    assert(all[0] == lines@[0]@ && all[1] == lines@[1]@);
    let first = &lines[0];
    let second = &lines[1];
    assert(first@.subrange(0, first.len() as int) == first@);
    assert(second@.subrange(0, second.len() as int) == second@);
    let (pa, pb) = trim_bounds(first, 0, first.len());
    let (ma, mb) = trim_bounds(second, 0, second.len());
    let mtime = match parse_u64(second, ma, mb) {
        Some(m) => m,
        None => {
            return None;
        },
    };
    if pa == pb {
        return None;
    }
    let source_type = if lines.len() >= 3 {
        assert(all[2] == lines@[2]@);
        read_kind(&lines[2])
    } else {
        ConfigSourceType::Explicit
    };
    Some(ConfigState { path: range_to_string(first, pa, pb), mtime, source_type })
}

/// What is written down for a state.
pub open spec fn record_for(state: Option<ConfigStateView>) -> Option<Seq<char>> {
    match state {
        Some(s) => Some(state_record(s)),
        None => None,
    }
}

/// The record to keep for a state: the text to write down, or `None` where
/// there is no state and the record is to be deleted.
pub fn write_last_config_state(state: Option<&ConfigState>) -> (record: Option<String>)
    ensures
        match record {
            Some(text) => record_for(state_ref_view(state)) == Some(text@),
            None => record_for(state_ref_view(state)) is None,
        },
{
    match state {
        Some(s) => {
            let mut out: Vec<char> = Vec::new();
            append_str(&mut out, s.path.as_str());
            out.push('\n');
            push_decimal(&mut out, s.mtime);
            out.push('\n');
            match s.source_type {
                ConfigSourceType::Explicit => append_str(&mut out, "Explicit"),
                ConfigSourceType::TriggerPath => append_str(&mut out, "TriggerPath"),
                ConfigSourceType::TriggerFile => append_str(&mut out, "TriggerFile"),
            }
            assert(out@ =~= state_record(s@));
            Some(to_string(&out))
        },
        None => None,
    }
}

/// Whether a path can be written down and read back: it is not empty, has
/// no whitespace at either end and holds no line feed.
pub open spec fn recordable_path(path: Seq<char>) -> bool {
    path.len() > 0 && trim(path) == path && !path.contains('\n')
}

/// The tag of a kind is read back as the kind.
pub proof fn lemma_kind_tag_round_trip(kind: ConfigSourceType)
    ensures
        kind_of_tag(trim(kind_tag(kind))) == kind,
        kind_tag(kind).len() > 0,
        !kind_tag(kind).contains('\n'),
{
    reveal_strlit("Explicit");
    reveal_strlit("TriggerPath");
    reveal_strlit("TriggerFile");
    reveal_strlit("PathGlob");
    reveal_strlit("Triggered");
    let tag = kind_tag(kind);
    lemma_trim_keeps(tag);
    assert("Explicit"@[0] == 'E');
    assert("TriggerPath"@[7] == 'P');
    assert("TriggerFile"@[7] == 'F');
    assert("PathGlob"@[0] == 'P');
    if tag.contains('\n') {
        let j = choose|j: int| 0 <= j < tag.len() && tag[j] == '\n';
        assert(tag[j] != '\n');
    }
}

/// What is written down for a state is read back as that state, where its
/// path can be written down.
pub proof fn lemma_record_round_trip(state: ConfigStateView)
    requires
        recordable_path(state.path),
    ensures
        parsed_state(state_record(state)) == Some(state),
{
    let number = decimal(state.mtime as nat);
    let tag = kind_tag(state.source_type);
    lemma_decimal_round_trip(state.mtime);
    lemma_kind_tag_round_trip(state.source_type);
    lemma_trimmed_ends(state.path);
    lemma_split_lines_single(tag);
    lemma_split_lines_first(number, tag);
    lemma_split_lines_first(state.path, number + seq!['\n'] + tag);
    assert(state_record(state) =~= state.path + seq!['\n'] + (number + seq!['\n'] + tag));
    let lines = split_lines(state_record(state));
    assert(lines =~= seq![state.path, number, tag]);
}

/// Once a state has been applied and written down, finding the
/// same state again asks for no repaint.
pub proof fn lemma_applied_state_is_kept(state: ConfigStateView)
    requires
        recordable_path(state.path),
    ensures
        repaint_needed(Some(state), None, false),
        !repaint_needed(Some(state), parsed_state(state_record(state)), false),
{
    lemma_record_round_trip(state);
}

// ---------------------------------------------------------------------------
// Stale sessions
// ---------------------------------------------------------------------------

/// The age, in nanoseconds, above which the record of a session is stale:
/// one day.
pub const STALE_SESSION_AGE: u128 = 86_400_000_000_000;

/// Whether a session is stale: the age of its record is known and is more
/// than a day. A record whose age cannot be had, or that was written in the
/// future, has no known age.
pub open spec fn is_stale(age: Option<u128>) -> bool {
    match age {
        Some(nanoseconds) => nanoseconds > STALE_SESSION_AGE,
        None => false,
    }
}

/// Which sessions are stale and can be removed. `ages` holds for each
/// session the age of its record in nanoseconds, or `None` where that is
/// not known; such a session is left alone.
pub fn cleanup_stale_sessions(ages: &Vec<Option<u128>>) -> (stale: Vec<bool>)
    ensures
        stale@.len() == ages@.len(),
        forall|i: int| 0 <= i < ages@.len() ==> #[trigger] stale@[i] == is_stale(ages@[i]),
{
    let mut stale: Vec<bool> = Vec::new();
    let mut i: usize = 0;
    while i < ages.len()
        invariant
            i <= ages.len(),
            stale@.len() == i,
            forall|j: int| 0 <= j < i ==> #[trigger] stale@[j] == is_stale(ages@[j]),
        decreases ages.len() - i,
    {
        let old_enough = match ages[i] {
            Some(nanoseconds) => nanoseconds > STALE_SESSION_AGE,
            None => false,
        };
        stale.push(old_enough);
        i += 1;
    }
    stale
}

} // verus!
