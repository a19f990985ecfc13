//! Finding the color source of a directory.
//!
//! The search goes from the directory upward, one level at a time, to the
//! root. At each level a marker file comes first, then a trigger pattern
//! that matches the directory's path, then a trigger file in the directory.
//! The first level that has any of them gives the source.
//!
//! The search looks at no file itself. The caller says of each level what is
//! there: the directory's path, the marker file if there is one, and which
//! of the configured trigger files it holds.

use crate::config::{ConfigSource, ConfigSourceView};
use crate::glob::{expand_home, expanded, glob_matches, pattern_matches};
use crate::text::to_chars;
use vstd::prelude::*;

verus! {

// ---------------------------------------------------------------------------
// What is there
// ---------------------------------------------------------------------------

/// What the file system shows of one directory.
#[derive(Debug, Clone, PartialEq, Eq)]
pub struct DirLevel {
    /// The directory's path.
    pub dir: String,
    /// The path of the marker file in the directory, if it has one.
    pub marker: Option<String>,
    /// The names of the files in the directory, as far as they matter: the
    /// configured trigger files that it holds.
    pub files: Vec<String>,
}

/// A level with its strings as sequences of characters.
pub struct DirLevelView {
    pub dir: Seq<char>,
    pub marker: Option<Seq<char>>,
    pub files: Seq<Seq<char>>,
}

/// The views of a list of strings.
pub open spec fn string_views(strings: Seq<String>) -> Seq<Seq<char>> {
    strings.map_values(|s: String| s@)
}

impl View for DirLevel {
    type V = DirLevelView;

    open spec fn view(&self) -> DirLevelView {
        DirLevelView {
            dir: self.dir@,
            marker: match self.marker {
                Some(p) => Some(p@),
                None => None,
            },
            files: string_views(self.files@),
        }
    }
}

/// The views of a list of levels.
pub open spec fn level_views(levels: Seq<DirLevel>) -> Seq<DirLevelView> {
    levels.map_values(|l: DirLevel| l@)
}

/// The triggers that the user has configured: names of files whose
/// presence in a directory gives it an automatic color, and patterns for
/// the paths of directories that get one.
pub struct Triggers {
    pub files: Seq<Seq<char>>,
    pub paths: Seq<Seq<char>>,
    pub home: Seq<char>,
}

// ---------------------------------------------------------------------------
// The source of one level, and of the way up
// ---------------------------------------------------------------------------

/// Whether one of the patterns, with the home directory put in, matches
/// the path.
pub open spec fn matches_a_pattern(dir: Seq<char>, paths: Seq<Seq<char>>, home: Seq<char>) -> bool {
    exists|i: int| 0 <= i < paths.len() && glob_matches(expand_home(#[trigger] paths[i], home), dir)
}

/// Whether the directory holds one of the trigger files.
pub open spec fn holds_a_trigger_file(present: Seq<Seq<char>>, files: Seq<Seq<char>>) -> bool {
    exists|i: int| 0 <= i < files.len() && present.contains(#[trigger] files[i])
}

/// The source that a single level gives: its marker file; else the
/// directory as one that a trigger pattern matches; else the directory as
/// one that holds a trigger file; else none.
pub open spec fn source_at(level: DirLevelView, triggers: Triggers) -> Option<ConfigSourceView> {
    match level.marker {
        Some(path) => Some(ConfigSourceView::Termtint(path)),
        None => if matches_a_pattern(level.dir, triggers.paths, triggers.home) {
            Some(ConfigSourceView::TriggerPath(level.dir))
        } else if holds_a_trigger_file(level.files, triggers.files) {
            Some(ConfigSourceView::TriggerFile(level.dir))
        } else {
            None
        },
    }
}

/// The source of a directory, given the levels from the directory itself,
/// which comes first, up to the root: the source of the first level that
/// has one.
pub open spec fn resolved_source(levels: Seq<DirLevelView>, triggers: Triggers) -> Option<
    ConfigSourceView,
>
    decreases levels.len(),
{
    if levels.len() == 0 {
        None
    } else {
        match source_at(levels[0], triggers) {
            Some(source) => Some(source),
            None => resolved_source(levels.skip(1), triggers),
        }
    }
}

/// An optional source, seen through its view.
pub open spec fn source_view(source: Option<ConfigSource>) -> Option<ConfigSourceView> {
    match source {
        Some(s) => Some(s@),
        None => None,
    }
}

// ---------------------------------------------------------------------------
// Laws
// ---------------------------------------------------------------------------

/// Where the directory itself holds a marker file, the marker file is the
/// source, whatever triggers match there or above.
pub proof fn lemma_marker_has_priority(levels: Seq<DirLevelView>, triggers: Triggers)
    requires
        levels.len() > 0,
        levels[0].marker is Some,
    ensures
        resolved_source(levels, triggers) == Some(
            ConfigSourceView::Termtint(levels[0].marker->0),
        ),
{
}

/// Where the levels below `k` have no source, the source is that of level
/// `k`. So a trigger file or a marker file in an ancestor is
/// found from a directory that has neither, and nothing further up is
/// looked at once a level has a source.
pub proof fn lemma_first_level_with_source_wins(
    levels: Seq<DirLevelView>,
    triggers: Triggers,
    k: int,
)
    requires
        0 <= k < levels.len(),
        forall|j: int| 0 <= j < k ==> source_at(#[trigger] levels[j], triggers) is None,
    ensures
        resolved_source(levels, triggers) == resolved_source(levels.skip(k), triggers),
        source_at(levels[k], triggers) is Some ==> resolved_source(levels, triggers) == source_at(
            levels[k],
            triggers,
        ),
    decreases k,
{
    if k == 0 {
        assert(levels.skip(0) == levels);
    } else {
        let rest = levels.skip(1);
        assert(source_at(levels[0], triggers) is None);
        assert forall|j: int| 0 <= j < k - 1 implies source_at(
            #[trigger] rest[j],
            triggers,
        ) is None by {
            assert(rest[j] == levels[j + 1]);
        }
        lemma_first_level_with_source_wins(rest, triggers, k - 1);
        assert(rest.skip(k - 1) == levels.skip(k));
        assert(rest[k - 1] == levels[k]);
    }
}

/// There is no source exactly where no level has one.
pub proof fn lemma_no_source_anywhere(levels: Seq<DirLevelView>, triggers: Triggers)
    ensures
        resolved_source(levels, triggers) is None <==> forall|j: int|
            0 <= j < levels.len() ==> source_at(#[trigger] levels[j], triggers) is None,
    decreases levels.len(),
{
    if levels.len() > 0 {
        let rest = levels.skip(1);
        lemma_no_source_anywhere(rest, triggers);
        if resolved_source(levels, triggers) is None {
            assert forall|j: int| 0 <= j < levels.len() implies source_at(
                #[trigger] levels[j],
                triggers,
            ) is None by {
                if j > 0 {
                    assert(rest[j - 1] == levels[j]);
                }
            }
        }
        if forall|j: int| 0 <= j < levels.len() ==> source_at(#[trigger] levels[j], triggers) is None {
            assert(source_at(levels[0], triggers) is None);
            assert forall|j: int| 0 <= j < rest.len() implies source_at(
                #[trigger] rest[j],
                triggers,
            ) is None by {
                assert(rest[j] == levels[j + 1]);
            }
        }
    }
}

// ---------------------------------------------------------------------------
// The search
// ---------------------------------------------------------------------------

/// Whether one of the patterns, with the home directory put in, matches
/// the path.
pub fn matches_trigger_path(dir: &str, trigger_paths: &Vec<String>, home: &str) -> (matched: bool)
    ensures
        matched == matches_a_pattern(dir@, string_views(trigger_paths@), home@),
{
    let dir_chars = to_chars(dir);
    let home_chars = to_chars(home);
    let ghost paths = string_views(trigger_paths@);
    let mut i: usize = 0;
    while i < trigger_paths.len()
        invariant
            i <= trigger_paths.len(),
            dir_chars@ == dir@,
            home_chars@ == home@,
            paths == string_views(trigger_paths@),
            forall|j: int|
                0 <= j < i ==> !glob_matches(expand_home(#[trigger] paths[j], home@), dir@),
        decreases trigger_paths.len() - i,
    {
        let pattern = to_chars(trigger_paths[i].as_str());
        assert(pattern@ == paths[i as int]);
        let full = expanded(&pattern, &home_chars);
        if pattern_matches(&full, &dir_chars) {
            return true;
        }
        i += 1;
    }
    false
}

/// Whether `name` is among `present`.
fn holds_file(present: &Vec<String>, name: &String) -> (held: bool)
    ensures
        held == string_views(present@).contains(name@),
{
    let ghost views = string_views(present@);
    let mut i: usize = 0;
    while i < present.len()
        invariant
            i <= present.len(),
            views == string_views(present@),
            forall|j: int| 0 <= j < i ==> views[j] != name@,
        decreases present.len() - i,
    {
        assert(views[i as int] == present@[i as int]@);
        if present[i] == *name {
            return true;
        }
        i += 1;
    }
    false
}

/// The first of the configured trigger files that the directory holds, by
/// its place in the configured list.
pub fn first_trigger_file(present: &Vec<String>, trigger_files: &Vec<String>) -> (found: Option<
    usize,
>)
    ensures
        match found {
            Some(i) => i < trigger_files@.len() && string_views(present@).contains(
                string_views(trigger_files@)[i as int],
            ) && forall|j: int|
                0 <= j < i ==> !string_views(present@).contains(
                    #[trigger] string_views(trigger_files@)[j],
                ),
            None => !holds_a_trigger_file(string_views(present@), string_views(trigger_files@)),
        },
        found is Some == holds_a_trigger_file(
            string_views(present@),
            string_views(trigger_files@),
        ),
{
    let ghost files = string_views(trigger_files@);
    let mut i: usize = 0;
    while i < trigger_files.len()
        invariant
            i <= trigger_files.len(),
            files == string_views(trigger_files@),
            forall|j: int| 0 <= j < i ==> !string_views(present@).contains(#[trigger] files[j]),
        decreases trigger_files.len() - i,
    {
        assert(files[i as int] == trigger_files@[i as int]@);
        if holds_file(present, &trigger_files[i]) {
            return Some(i);
        }
        i += 1;
    }
    None
}

/// The source that a single level gives.
pub fn source_of_level(
    level: &DirLevel,
    trigger_files: &Vec<String>,
    trigger_paths: &Vec<String>,
    home: &str,
) -> (source: Option<ConfigSource>)
    ensures
        source_view(source) == source_at(
            level@,
            Triggers {
                files: string_views(trigger_files@),
                paths: string_views(trigger_paths@),
                home: home@,
            },
        ),
{
    match &level.marker {
        Some(path) => Some(ConfigSource::Termtint(path.clone())),
        None => {
            if matches_trigger_path(level.dir.as_str(), trigger_paths, home) {
                Some(ConfigSource::TriggerPath(level.dir.clone()))
            } else if first_trigger_file(&level.files, trigger_files).is_some() {
                Some(ConfigSource::TriggerFile(level.dir.clone()))
            } else {
                None
            }
        },
    }
}

/// Finds the color source of a directory. `levels` says what is there on
/// the way up: first the directory itself, then its parent, and so on to
/// the root. The source is that of the first level that has one: its marker
/// file, else a trigger pattern that matches its path, else a trigger file
/// that it holds. Where no level has a source there is none.
pub fn find_config_source(
    levels: &Vec<DirLevel>,
    trigger_files: &Vec<String>,
    trigger_paths: &Vec<String>,
    home: &str,
) -> (source: Option<ConfigSource>)
    ensures
        source_view(source) == resolved_source(
            level_views(levels@),
            Triggers {
                files: string_views(trigger_files@),
                paths: string_views(trigger_paths@),
                home: home@,
            },
        ),
{
    let ghost all = level_views(levels@);
    let ghost triggers = Triggers {
        files: string_views(trigger_files@),
        paths: string_views(trigger_paths@),
        home: home@,
    };
    let mut i: usize = 0;
    while i < levels.len()
        invariant
            i <= levels.len(),
            all == level_views(levels@),
            triggers == (Triggers {
                files: string_views(trigger_files@),
                paths: string_views(trigger_paths@),
                home: home@,
            }),
            forall|j: int| 0 <= j < i ==> source_at(#[trigger] all[j], triggers) is None,
        decreases levels.len() - i,
    {
        assert(all[i as int] == levels@[i as int]@);
        let found = source_of_level(&levels[i], trigger_files, trigger_paths, home);
        if found.is_some() {
            proof {
                lemma_first_level_with_source_wins(all, triggers, i as int);
            }
            return found;
        }
        i += 1;
    }
    proof {
        lemma_no_source_anywhere(all, triggers);
    }
    None
}

// ---------------------------------------------------------------------------
// The search, one level at a time
// ---------------------------------------------------------------------------

/// What follows from a look at one level.
#[derive(Debug, Clone, PartialEq, Eq)]
pub enum Ascent {
    /// The level has a source: the search is over.
    Found(ConfigSource),
    /// The level has none: the level with this index is looked at next.
    Look(usize),
    /// The level has none and is the last: there is no source.
    NotFound,
}

pub enum AscentView {
    Found(ConfigSourceView),
    Look(int),
    NotFound,
}

impl View for Ascent {
    type V = AscentView;

    open spec fn view(&self) -> AscentView {
        match self {
            Ascent::Found(s) => AscentView::Found(s@),
            Ascent::Look(i) => AscentView::Look(*i as int),
            Ascent::NotFound => AscentView::NotFound,
        }
    }
}

/// What follows from a look at the level with index `index`, on a way up
/// of `depth` levels.
pub open spec fn step_at(depth: int, index: int, level: DirLevelView, triggers: Triggers) -> AscentView {
    match source_at(level, triggers) {
        Some(source) => AscentView::Found(source),
        None => if index + 1 < depth {
            AscentView::Look(index + 1)
        } else {
            AscentView::NotFound
        },
    }
}

/// Where the steps lead that start with a look at the level with index
/// `index`.
pub open spec fn ascent_from(levels: Seq<DirLevelView>, triggers: Triggers, index: int) -> Option<
    ConfigSourceView,
>
    decreases levels.len() - index,
{
    if 0 <= index < levels.len() {
        match step_at(levels.len() as int, index, levels[index], triggers) {
            AscentView::Found(source) => Some(source),
            AscentView::Look(next) => ascent_from(levels, triggers, index + 1),
            AscentView::NotFound => None,
        }
    } else {
        None
    }
}

/// The steps from any level on lead to the source of the way up from that
/// level.
proof fn lemma_ascent_from(levels: Seq<DirLevelView>, triggers: Triggers, index: int)
    requires
        0 <= index <= levels.len(),
    ensures
        ascent_from(levels, triggers, index) == resolved_source(levels.skip(index), triggers),
    decreases levels.len() - index,
{
    let rest = levels.skip(index);
    if index < levels.len() {
        assert(rest[0] == levels[index]);
        assert(rest.skip(1) == levels.skip(index + 1));
        lemma_ascent_from(levels, triggers, index + 1);
    }
}

/// Taking the steps one after another, from the directory itself on, leads
/// to the same source as the search over all levels at once.
pub proof fn lemma_ascent_finds_the_source(levels: Seq<DirLevelView>, triggers: Triggers)
    ensures
        ascent_from(levels, triggers, 0) == resolved_source(levels, triggers),
{
    lemma_ascent_from(levels, triggers, 0);
    assert(levels.skip(0) == levels);
}

/// Decides what follows from a look at one level. `depth` is the number of
/// levels from the directory itself to the root, `index` the place of the
/// level that was looked at, and `level` what is there. A caller who looks
/// at the file system one level at a time starts with the directory itself,
/// at index 0, and goes on as the result says.
pub fn ascend(
    depth: usize,
    index: usize,
    level: &DirLevel,
    trigger_files: &Vec<String>,
    trigger_paths: &Vec<String>,
    home: &str,
) -> (step: Ascent)
    ensures
        step@ == step_at(
            depth as int,
            index as int,
            level@,
            Triggers {
                files: string_views(trigger_files@),
                paths: string_views(trigger_paths@),
                home: home@,
            },
        ),
{
    match source_of_level(level, trigger_files, trigger_paths, home) {
        Some(source) => Ascent::Found(source),
        None => if index < depth && index + 1 < depth {
            Ascent::Look(index + 1)
        } else {
            Ascent::NotFound
        },
    }
}

} // verus!
