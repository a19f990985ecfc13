//! The lists of triggers: adding one and taking one out.

use crate::glob::{is_path_pattern, path_pattern};
use crate::resolver::string_views;
use vstd::prelude::*;

verus! {

/// What a trigger is.
#[derive(Debug, Clone, Copy, PartialEq, Eq, Structural)]
pub enum TriggerKind {
    /// The name of a file.
    File,
    /// A pattern for the paths of directories.
    Path,
}

/// Tells what a trigger is: a pattern for paths where it holds a `/`, a `*`,
/// a `~` or a `?`, and else the name of a file.
pub fn trigger_kind(pattern: &str) -> (kind: TriggerKind)
    ensures
        kind == if path_pattern(pattern@) {
            TriggerKind::Path
        } else {
            TriggerKind::File
        },
{
    if is_path_pattern(pattern) {
        TriggerKind::Path
    } else {
        TriggerKind::File
    }
}

/// The list without the entries that are equal to `entry`.
pub open spec fn without(list: Seq<Seq<char>>, entry: Seq<char>) -> Seq<Seq<char>>
    decreases list.len(),
{
    if list.len() == 0 {
        Seq::empty()
    } else if list.last() == entry {
        without(list.drop_last(), entry)
    } else {
        without(list.drop_last(), entry).push(list.last())
    }
}

/// What is left holds everything but the entry, and not the entry.
pub proof fn lemma_without(list: Seq<Seq<char>>, entry: Seq<char>)
    ensures
        !without(list, entry).contains(entry),
        forall|other: Seq<char>|
            other != entry ==> without(list, entry).contains(other) == list.contains(other),
        !list.contains(entry) ==> without(list, entry) == list,
    decreases list.len(),
{
    if list.len() > 0 {
        let rest = list.drop_last();
        let kept = without(rest, entry);
        lemma_without(rest, entry);
        assert(list == rest.push(list.last()));
        assert forall|other: Seq<char>| other != entry implies without(list, entry).contains(other)
            == list.contains(other) by {
            if list.contains(other) {
                let i = choose|i: int| 0 <= i < list.len() && list[i] == other;
                if i < rest.len() {
                    assert(rest[i] == other);
                    assert(rest.contains(other));
                    assert(kept.contains(other));
                    let j = choose|j: int| 0 <= j < kept.len() && kept[j] == other;
                    if list.last() != entry {
                        assert(kept.push(list.last())[j] == other);
                    }
                } else {
                    assert(list.last() == other);
                    assert(kept.push(list.last())[kept.len() as int] == other);
                }
            }
            if without(list, entry).contains(other) {
                let w = without(list, entry);
                let j = choose|j: int| 0 <= j < w.len() && w[j] == other;
                if list.last() != entry && j == kept.len() {
                    assert(list[list.len() - 1] == other);
                } else {
                    assert(kept[j] == other);
                    assert(rest.contains(other));
                    let i = choose|i: int| 0 <= i < rest.len() && rest[i] == other;
                    assert(list[i] == other);
                }
            }
        }
        if without(list, entry).contains(entry) {
            let w = without(list, entry);
            let j = choose|j: int| 0 <= j < w.len() && w[j] == entry;
            if list.last() != entry && j == kept.len() {
            } else {
                assert(kept[j] == entry);
            }
        }
        if !list.contains(entry) {
            assert(list.last() == list[list.len() - 1]);
            if rest.contains(entry) {
                let i = choose|i: int| 0 <= i < rest.len() && rest[i] == entry;
                assert(list[i] == entry);
            }
        }
    }
}

/// Whether the list holds the trigger.
pub fn has_trigger(list: &Vec<String>, pattern: &str) -> (held: bool)
    ensures
        held == string_views(list@).contains(pattern@),
{
    let ghost views = string_views(list@);
    let mut i: usize = 0;
    while i < list.len()
        invariant
            i <= list.len(),
            views == string_views(list@),
            forall|j: int| 0 <= j < i ==> views[j] != pattern@,
        decreases list.len() - i,
    {
        assert(views[i as int] == list@[i as int]@);
        let entry = list[i].as_str();
        if crate::text::equals_str(&crate::text::to_chars(entry), pattern) {
            return true;
        }
        i += 1;
    }
    false
}

/// Adds a trigger to the end of the list, unless the list holds it already.
/// The result says whether it was added.
pub fn add_trigger(list: &mut Vec<String>, pattern: &str) -> (added: bool)
    ensures
        added == !string_views(old(list)@).contains(pattern@),
        string_views(final(list)@) == if added {
            string_views(old(list)@).push(pattern@)
        } else {
            string_views(old(list)@)
        },
{
    if has_trigger(list, pattern) {
        return false;
    }
    list.push(pattern.to_owned());
    assert(string_views(list@) =~= string_views(old(list)@).push(pattern@));
    true
}

/// Takes a trigger out of the list, wherever it stands in it. The result
/// says whether the list held it.
pub fn remove_trigger(list: &mut Vec<String>, pattern: &str) -> (removed: bool)
    ensures
        removed == string_views(old(list)@).contains(pattern@),
        string_views(final(list)@) == without(string_views(old(list)@), pattern@),
{
    let ghost before = string_views(list@);
    let held = has_trigger(list, pattern);
    let mut kept: Vec<String> = Vec::new();
    let mut i: usize = 0;
    assert(string_views(kept@) =~= without(before.take(0), pattern@));
    while i < list.len()
        invariant
            i <= list.len(),
            before == string_views(list@),
            string_views(kept@) == without(before.take(i as int), pattern@),
        decreases list.len() - i,
    {
        assert(before.take(i + 1).drop_last() == before.take(i as int));
        assert(before.take(i + 1).last() == list@[i as int]@);
        let ghost so_far = kept@;
        let entry = list[i].as_str();
        if !crate::text::equals_str(&crate::text::to_chars(entry), pattern) {
            kept.push(entry.to_owned());
            assert(string_views(kept@) =~= string_views(so_far).push(entry@));
        }
        i += 1;
    }
    assert(before.take(list.len() as int) == before);
    *list = kept;
    held
}

} // verus!
